//! How a produced file is handed to an external viewer.

use vstd::prelude::*;
use core::marker::PhantomData;
use crate::error::HwError;
use crate::format::{format_spec, renders};

verus! {

/// A kind of file that a viewer can be started on. It names the placeholder
/// that stands for the file in the viewer's argument templates.
pub trait Formattable {
    /// The name of the placeholder.
    spec fn placeholder() -> Seq<char>;

    /// Renders the argument template `s` for the file at `path`, which the
    /// caller has made absolute.
    fn format(s: String, path: &str) -> (r: Result<String, HwError>)
        ensures
            renders(r, format_spec(s@, seq![(Self::placeholder(), path@)])),
    ;
}

/// A viewer: the program to start and the templates of its arguments.
pub struct OpenSettings<T: Formattable> {
    binary: String,
    args_format: Vec<String>,
    _phantom: PhantomData<T>,
}

/// What an `OpenSettings` holds.
pub struct OpenSettingsView {
    pub binary: Seq<char>,
    pub args_format: Seq<Seq<char>>,
}

impl OpenSettingsView {
    /// The arguments for the file at `path`, where the placeholder is
    /// `placeholder`: each template rendered in turn, or `None` where one of
    /// them cannot be rendered.
    pub open spec fn args(self, placeholder: Seq<char>, path: Seq<char>) -> Option<
        Seq<Seq<char>>,
    > {
        if forall|i: int|
            0 <= i < self.args_format.len() ==> (#[trigger] format_spec(
                self.args_format[i],
                seq![(placeholder, path)],
            )) is Some {
            Some(
                Seq::new(
                    self.args_format.len(),
                    |i: int| format_spec(self.args_format[i], seq![(placeholder, path)])->Some_0,
                ),
            )
        } else {
            None
        }
    }
}

impl<T: Formattable> View for OpenSettings<T> {
    type V = OpenSettingsView;

    closed spec fn view(&self) -> OpenSettingsView {
        OpenSettingsView { binary: self.binary@, args_format: self.args_format.deep_view() }
    }
}

impl<T: Formattable> Clone for OpenSettings<T> {
    fn clone(&self) -> (r: Self)
        ensures
            r@ == self@,
    {
        let mut args_format: Vec<String> = Vec::new();
        let mut i: usize = 0;
        while i < self.args_format.len()
            invariant
                i <= self.args_format.len(),
                args_format.len() == i,
                forall|k: int| 0 <= k < i ==> args_format[k]@ == self.args_format[k]@,
            decreases self.args_format.len() - i,
        {
            args_format.push(self.args_format[i].clone());
            i += 1;
        }
        proof {
            assert(args_format.deep_view() =~= self.args_format.deep_view());
        }
        OpenSettings { binary: self.binary.clone(), args_format, _phantom: PhantomData }
    }
}

impl<T: Formattable> OpenSettings<T> {
    pub fn new(binary: String, args_format: Vec<String>) -> (r: Self)
        ensures
            r@ == (OpenSettingsView { binary: binary@, args_format: args_format.deep_view() }),
    {
        OpenSettings { binary, args_format, _phantom: PhantomData }
    }

    /// The program to start.
    pub fn binary(&self) -> (r: &str)
        ensures
            r@ == self@.binary,
    {
        self.binary.as_str()
    }

    /// The templates of the arguments, in order.
    pub fn args_format(&self) -> (r: &[String])
        ensures
            r.deep_view() == self@.args_format,
    {
        let r = self.args_format.as_slice();
        proof {
            assert(r.deep_view() =~= self.args_format.deep_view());
        }
        r
    }

    /// The arguments to start the viewer with on the file at `path`: every
    /// argument template rendered, in order. Fails with the format error of
    /// the first template that cannot be rendered.
    pub fn args(&self, path: &str) -> (r: Result<Vec<String>, HwError>)
        ensures
            match r {
                Ok(args) => self@.args(T::placeholder(), path@) == Some(args.deep_view()),
                Err(e) => self@.args(T::placeholder(), path@) is None && e.kind
                    == crate::error::ErrorKind::Format,
            },
    {
        let mut args: Vec<String> = Vec::new();
        let mut i: usize = 0;
        while i < self.args_format.len()
            invariant
                i <= self.args_format.len(),
                args.len() == i,
                forall|k: int|
                    0 <= k < i ==> (#[trigger] format_spec(
                        self@.args_format[k],
                        seq![(T::placeholder(), path@)],
                    )) == Some(args[k]@),
            decreases self.args_format.len() - i,
        {
            match T::format(self.args_format[i].clone(), path) {
                Ok(arg) => {
                    args.push(arg);
                },
                Err(e) => {
                    proof {
                        assert(format_spec(
                            self@.args_format[i as int],
                            seq![(T::placeholder(), path@)],
                        ) is None);
                    }
                    return Err(e);
                },
            }
            i += 1;
        }
        proof {
            assert(self@.args(T::placeholder(), path@)->Some_0 =~= args.deep_view());
        }
        Ok(args)
    }
}

} // verus!
