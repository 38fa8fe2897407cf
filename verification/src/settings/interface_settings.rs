//! How subjects are presented to the user.

use vstd::prelude::*;
use crate::error::HwError;
use crate::format::{format_num_text, format_spec, num_binding, renders};
use crate::interface::InterfaceType;
use crate::subject::Subject;

verus! {

/// The front-end and the label that it shows for a subject.
pub struct InterfaceSettings {
    interface_type: InterfaceType,
    subject_label_format: String,
}

/// What an `InterfaceSettings` holds.
pub struct InterfaceSettingsView {
    pub interface_type: InterfaceType,
    pub subject_label_format: Seq<char>,
}

impl InterfaceSettingsView {
    /// The label of the subject called `name` whose latest assignment is
    /// `num`, or `None` where the format cannot be rendered.
    pub open spec fn subject_label(self, name: Seq<char>, num: nat) -> Option<Seq<char>> {
        format_spec(self.subject_label_format, seq![num_binding(num), ("name"@, name)])
    }
}

impl View for InterfaceSettings {
    type V = InterfaceSettingsView;

    closed spec fn view(&self) -> InterfaceSettingsView {
        InterfaceSettingsView {
            interface_type: self.interface_type,
            subject_label_format: self.subject_label_format@,
        }
    }
}

impl Clone for InterfaceSettings {
    fn clone(&self) -> (r: Self)
        ensures
            r@ == self@,
    {
        InterfaceSettings {
            interface_type: self.interface_type,
            subject_label_format: self.subject_label_format.clone(),
        }
    }
}

impl InterfaceSettings {
    pub fn new(interface_type: InterfaceType, subject_label_format: String) -> (r: Self)
        ensures
            r@ == (InterfaceSettingsView {
                interface_type,
                subject_label_format: subject_label_format@,
            }),
    {
        InterfaceSettings { interface_type, subject_label_format }
    }

    /// The front-end to run.
    pub fn interface_type(&self) -> (r: &InterfaceType)
        ensures
            *r == self@.interface_type,
    {
        &self.interface_type
    }

    /// The format of a subject's label.
    pub fn subject_label_format(&self) -> (r: &str)
        ensures
            r@ == self@.subject_label_format,
    {
        self.subject_label_format.as_str()
    }

    /// The label shown for `subject`: its name and the number of its latest
    /// assignment, as the label format arranges them.
    pub fn subject_label(&self, subject: &Subject) -> (r: Result<String, HwError>)
        ensures
            renders(r, self@.subject_label(subject@.name, subject@.current_hw_num as nat)),
    {
        format_num_text(
            self.subject_label_format.as_str(),
            subject.current_hw_num(),
            "name",
            subject.name(),
        )
    }
}

} // verus!
