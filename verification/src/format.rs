//! The format engine: templates with named placeholders.
//!
//! A template is literal text in which `{name}` stands for the value bound to
//! `name`, and `{{` and `}}` stand for a literal `{` and `}`. A name is an
//! ASCII letter or `_` followed by ASCII letters, digits and `_`. Nothing else
//! may stand between braces: placeholders by position and format
//! specifications are refused. The substitution itself is done by `formatx`.

use vstd::prelude::*;
use crate::error::{ErrorKind, HwError};
use crate::text::chars_of;

verus! {

/// Whether `c` may begin a placeholder's name.
pub open spec fn is_name_start(c: char) -> bool {
    ||| 'a' <= c <= 'z'
    ||| 'A' <= c <= 'Z'
    ||| c == '_'
}

/// Whether `c` may stand inside a placeholder's name.
pub open spec fn is_name_char(c: char) -> bool {
    is_name_start(c) || '0' <= c <= '9'
}

/// The first position at or after `i` that holds no name character.
pub open spec fn name_end(t: Seq<char>, i: int) -> int
    decreases t.len() - i,
{
    if 0 <= i < t.len() && is_name_char(t[i]) {
        name_end(t, i + 1)
    } else {
        i
    }
}

/// Whether `t`, read from position `i` on, is made of literal characters,
/// `{{`, `}}` and `{name}` only.
pub open spec fn plain_from(t: Seq<char>, i: int) -> bool
    decreases t.len() - i,
{
    if i < 0 || i >= t.len() {
        true
    } else if t[i] == '{' {
        if i + 1 < t.len() && t[i + 1] == '{' {
            plain_from(t, i + 2)
        } else {
            let j = name_end(t, i + 1);
            &&& i + 1 < j < t.len()
            &&& is_name_start(t[i + 1])
            &&& t[j] == '}'
            &&& plain_from(t, j + 1)
        }
    } else if t[i] == '}' {
        &&& i + 1 < t.len()
        &&& t[i + 1] == '}'
        &&& plain_from(t, i + 2)
    } else {
        plain_from(t, i + 1)
    }
}

/// Whether `t` is a template of this engine.
pub open spec fn is_plain_template(t: Seq<char>) -> bool {
    plain_from(t, 0)
}

fn name_start(c: char) -> (r: bool)
    ensures
        r == is_name_start(c),
{
    ('a' <= c && c <= 'z') || ('A' <= c && c <= 'Z') || c == '_'
}

fn name_char(c: char) -> (r: bool)
    ensures
        r == is_name_char(c),
{
    name_start(c) || ('0' <= c && c <= '9')
}

fn find_name_end(t: &Vec<char>, start: usize) -> (end: usize)
    requires
        start <= t.len(),
    ensures
        end == name_end(t@, start as int),
        start <= end <= t.len(),
{
    let mut j: usize = start;
    while j < t.len() && name_char(t[j])
        invariant
            start <= j <= t.len(),
            name_end(t@, start as int) == name_end(t@, j as int),
        decreases t.len() - j,
    {
        j += 1;
    }
    j
}

/// Reads a template once and says whether it is one.
pub fn check_template(template: &str) -> (ok: bool)
    ensures
        ok == is_plain_template(template@),
{
    let t = chars_of(template);
    let n: usize = t.len();
    let mut i: usize = 0;
    while i < n
        invariant
            i <= n == t.len(),
            t@ == template@,
            is_plain_template(t@) == plain_from(t@, i as int),
        decreases n - i,
    {
        let c = t[i];
        if c == '{' {
            if i + 1 < n && t[i + 1] == '{' {
                i += 2;
            } else {
                let j = find_name_end(&t, i + 1);
                if i + 1 < j && j < n && name_start(t[i + 1]) && t[j] == '}' {
                    i = j + 1;
                } else {
                    return false;
                }
            }
        } else if c == '}' {
            if i + 1 < n && t[i + 1] == '}' {
                i += 2;
            } else {
                return false;
            }
        } else {
            i += 1;
        }
    }
    true
}

/// The decimal digit of `d`, for `d` below ten.
pub open spec fn digit(d: nat) -> char {
    if d == 0 {
        '0'
    } else if d == 1 {
        '1'
    } else if d == 2 {
        '2'
    } else if d == 3 {
        '3'
    } else if d == 4 {
        '4'
    } else if d == 5 {
        '5'
    } else if d == 6 {
        '6'
    } else if d == 7 {
        '7'
    } else if d == 8 {
        '8'
    } else {
        '9'
    }
}

/// `n` written in decimal, without sign or leading zeros.
pub open spec fn decimal(n: nat) -> Seq<char>
    decreases n,
{
    if n < 10 {
        seq![digit(n)]
    } else {
        decimal(n / 10).push(digit(n % 10))
    }
}

fn digit_char(d: usize) -> (c: char)
    requires
        d < 10,
    ensures
        c == digit(d as nat),
{
    if d == 0 {
        '0'
    } else if d == 1 {
        '1'
    } else if d == 2 {
        '2'
    } else if d == 3 {
        '3'
    } else if d == 4 {
        '4'
    } else if d == 5 {
        '5'
    } else if d == 6 {
        '6'
    } else if d == 7 {
        '7'
    } else if d == 8 {
        '8'
    } else {
        '9'
    }
}

/// The text that a number contributes to a rendered template.
pub fn decimal_string(n: usize) -> (s: String)
    ensures
        s@ == decimal(n as nat),
    decreases n,
{
    if n < 10 {
        let mut s = String::new();
        s.push(digit_char(n));
        proof {
            assert(s@ =~= seq![digit(n as nat)]);
        }
        s
    } else {
        let mut s = decimal_string(n / 10);
        s.push(digit_char(n % 10));
        s
    }
}

/// The error type of `formatx`.
#[verifier::external_type_specification]
#[verifier::external_body]
pub struct ExFormatxError(formatx::Error);

/// What `formatx` makes of a template and named arguments: the text that
/// `Renderer::finish` returns for the template that `Template::new` parsed
/// and the arguments that `Renderer::named` was given, in their order, or
/// `None` where `Template::new` or `Renderer::finish` reports an error.
pub uninterp spec fn formatx_output(
    template: Seq<char>,
    bindings: Seq<(Seq<char>, Seq<char>)>,
) -> Option<Seq<char>>;

/// Renders `template` with `formatx`: `Template::new`, then `Renderer::named`
/// for each binding in turn, then `Renderer::finish`, its strict mode. The
/// outcome depends on the template and the bindings alone. Only templates
/// of this engine are handed over: for them `formatx` writes each value with
/// its plain `Display`, which pads nothing and cannot fail.
#[verifier::external_body]
fn formatx_render(template: &str, bindings: &Vec<(String, String)>) -> (result: Result<
    String,
    formatx::Error,
>)
    requires
        is_plain_template(template@),
    ensures
        formatx_output(template@, bindings.deep_view()) == (match result {
            Ok(text) => Some(text@),
            Err(_) => None::<Seq<char>>,
        }),
{
    let parsed = formatx::Template::new(template)?;
    let mut renderer = parsed.render();
    for binding in bindings.iter() {
        renderer.named(binding.0.as_str(), binding.1.as_str());
    }
    renderer.finish()
}

/// The message of a `formatx` error, as its `Display` writes it.
#[verifier::external_body]
fn formatx_message(error: &formatx::Error) -> (message: String) {
    error.to_string()
}

/// What rendering `template` with `bindings` gives: the text, or `None` where
/// the template is not one of this engine or `formatx` reports an error.
pub open spec fn format_spec(
    template: Seq<char>,
    bindings: Seq<(Seq<char>, Seq<char>)>,
) -> Option<Seq<char>> {
    if is_plain_template(template) {
        formatx_output(template, bindings)
    } else {
        None
    }
}

/// Turns what `formatx` returned into this library's result: the text as it
/// is, any error as a format error with the message of `formatx`.
pub fn format_outcome(result: Result<String, formatx::Error>) -> (r: Result<String, HwError>)
    ensures
        match result {
            Ok(text) => r == Ok::<String, HwError>(text),
            Err(_) => r is Err && r->Err_0.kind == ErrorKind::Format,
        },
{
    match result {
        Ok(text) => Ok(text),
        Err(error) => Err(HwError::new(ErrorKind::Format, formatx_message(&error))),
    }
}

/// Whether `r` is the outcome that `expected` describes: the text, or a
/// format error where there is none.
pub open spec fn renders(r: Result<String, HwError>, expected: Option<Seq<char>>) -> bool {
    match r {
        Ok(text) => expected == Some(text@),
        Err(e) => expected is None && e.kind == ErrorKind::Format,
    }
}

/// Renders `template`, replacing each `{name}` with the value bound to `name`.
///
/// Fails with a format error where the template is malformed, holds a
/// placeholder by position or a format specification, or where `formatx`
/// refuses it, as it does for a placeholder that `bindings` does not name.
pub fn format(template: &str, bindings: &Vec<(String, String)>) -> (r: Result<String, HwError>)
    ensures
        renders(r, format_spec(template@, bindings.deep_view())),
        !is_plain_template(template@) ==> r is Err && r->Err_0.message@
            == "malformed format string"@,
{
    if !check_template(template) {
        return Err(HwError::with_text(ErrorKind::Format, "malformed format string"));
    }
    format_outcome(formatx_render(template, bindings))
}

/// The binding of the placeholder `{num}` to an assignment number.
pub open spec fn num_binding(num: nat) -> (Seq<char>, Seq<char>) {
    ("num"@, decimal(num))
}

/// Renders a template whose only placeholder is `{num}`.
pub fn format_num(template: &str, num: usize) -> (r: Result<String, HwError>)
    ensures
        renders(r, format_spec(template@, seq![num_binding(num as nat)])),
{
    let mut bindings: Vec<(String, String)> = Vec::new();
    bindings.push(("num".to_owned(), decimal_string(num)));
    proof {
        assert(bindings.deep_view() =~= seq![num_binding(num as nat)]);
    }
    format(template, &bindings)
}

/// Renders a template whose only placeholder is `{name}`, bound to `value`.
pub fn format_text(template: &str, name: &str, value: &str) -> (r: Result<String, HwError>)
    ensures
        renders(r, format_spec(template@, seq![(name@, value@)])),
{
    let mut bindings: Vec<(String, String)> = Vec::new();
    bindings.push((name.to_owned(), value.to_owned()));
    proof {
        assert(bindings.deep_view() =~= seq![(name@, value@)]);
    }
    format(template, &bindings)
}

/// Renders a template that may hold `{num}` and `{name}`, bound to `value`.
pub fn format_num_text(template: &str, num: usize, name: &str, value: &str) -> (r: Result<
    String,
    HwError,
>)
    ensures
        renders(r, format_spec(template@, seq![num_binding(num as nat), (name@, value@)])),
{
    let mut bindings: Vec<(String, String)> = Vec::new();
    bindings.push(("num".to_owned(), decimal_string(num)));
    bindings.push((name.to_owned(), value.to_owned()));
    proof {
        assert(bindings.deep_view() =~= seq![num_binding(num as nat), (name@, value@)]);
    }
    format(template, &bindings)
}

/// Rendering is a function of the template and the bindings: in two calls
/// with the same template and the same names bound to the same values, the
/// outcomes agree.
pub proof fn lemma_format_deterministic(
    template: Seq<char>,
    first: Seq<(Seq<char>, Seq<char>)>,
    second: Seq<(Seq<char>, Seq<char>)>,
)
    requires
        first.len() == second.len(),
        forall|i: int| 0 <= i < first.len() ==> first[i] == second[i],
    ensures
        format_spec(template, first) == format_spec(template, second),
{
    assert(first =~= second);
}

} // verus!
