use vstd::prelude::*;
use vstd::string::{StrSliceExecFns, StringExecFns};

verus! {

/// The characters that never stay in the name of a stored upload.
pub open spec fn is_forbidden_char(c: char) -> bool {
    c == '/' || c == '\\' || c == '?' || c == '%' || c == '*' || c == ':' || c == '|' || c == '"'
        || c == '<' || c == '>' || c == '.'
}

/// `s` without its forbidden characters, the others kept in order.
pub open spec fn without_forbidden(s: Seq<char>) -> Seq<char>
    decreases s.len(),
{
    if s.len() == 0 {
        Seq::empty()
    } else if is_forbidden_char(s.last()) {
        without_forbidden(s.drop_last())
    } else {
        without_forbidden(s.drop_last()).push(s.last())
    }
}

/// Whether `c` has Unicode's White_Space property.
pub uninterp spec fn white_space(c: char) -> bool;

/// Every character of `s` is white space (true of the empty sequence).
pub open spec fn is_blank_text(s: Seq<char>) -> bool {
    forall|i: int| 0 <= i < s.len() ==> white_space(#[trigger] s[i])
}

/// Relies on char::is_whitespace, whose result depends on `c` alone.
#[verifier::external_body]
fn is_white_space(c: char) -> (r: bool)
    ensures
        r == white_space(c),
{
    c.is_whitespace()
}

/// `filename` with its forbidden characters taken out.
pub fn strip_forbidden_chars(filename: &str) -> (r: String)
    ensures
        r@ == without_forbidden(filename@),
{
    let n = filename.unicode_len();
    let mut out = String::new();
    let mut i: usize = 0;
    while i < n
        invariant
            n == filename@.len(),
            i <= n,
            out@ == without_forbidden(filename@.take(i as int)),
        decreases n - i,
    {
        let c = filename.get_char(i);
        assert(filename@.take(i as int + 1).drop_last() =~= filename@.take(i as int));
        if !(c == '/' || c == '\\' || c == '?' || c == '%' || c == '*' || c == ':' || c == '|' || c
            == '"' || c == '<' || c == '>' || c == '.') {
            let one = filename.substring_char(i, i + 1);
            out.append(one);
            assert(one@ =~= seq![c]);
        }
        i += 1;
    }
    assert(filename@.take(n as int) =~= filename@);
    out
}

/// Whether `s` holds only white space.
pub fn is_blank(s: &str) -> (r: bool)
    ensures
        r == is_blank_text(s@),
{
    let n = s.unicode_len();
    let mut i: usize = 0;
    while i < n
        invariant
            n == s@.len(),
            i <= n,
            forall|k: int| 0 <= k < i ==> white_space(#[trigger] s@[k]),
        decreases n - i,
    {
        if !is_white_space(s.get_char(i)) {
            return false;
        }
        i += 1;
    }
    true
}

/// `name`, or `unnamed` when `blank` says that `name` holds nothing but
/// white space.
pub fn name_or_default(name: String, blank: bool) -> (r: String)
    ensures
        r@ == (if blank {
            "unnamed"@
        } else {
            name@
        }),
{
    if blank {
        String::from_str("unnamed")
    } else {
        name
    }
}

/// The name under which an upload called `filename` is stored: its forbidden
/// characters taken out, and `unnamed` when nothing but white space is left.
pub fn sanitize_filename(filename: &str) -> (r: String)
    ensures
        r@ == (if is_blank_text(without_forbidden(filename@)) {
            "unnamed"@
        } else {
            without_forbidden(filename@)
        }),
{
    let kept = strip_forbidden_chars(filename);
    let blank = is_blank(kept.as_str());
    name_or_default(kept, blank)
}

/// The path where an upload called `filename` is stored; an upload without a
/// name is called `unnamed`.
pub fn upload_path(filename: Option<&str>) -> (r: String)
    ensures
        r@ == "./uploads/"@ + (match filename {
            Some(f) => if is_blank_text(without_forbidden(f@)) {
                "unnamed"@
            } else {
                without_forbidden(f@)
            },
            None => "unnamed"@,
        }),
{
    let name = match filename {
        Some(f) => sanitize_filename(f),
        None => String::from_str("unnamed"),
    };
    let path = String::from_str("./uploads/");
    path.concat(name.as_str())
}

/// Whether an upload of `content_length` bytes is taken: it must hold
/// something and stay within `max_bytes`.
pub fn upload_size_accepted(content_length: usize, max_bytes: usize) -> (r: bool)
    ensures
        r == (0 < content_length && content_length <= max_bytes),
{
    content_length != 0 && content_length <= max_bytes
}

} // verus!
