//! Volume commands read from text.
use vstd::prelude::*;
use vstd::string::StrSliceExecFns;

verus! {

/// Whether two characters are equal once ASCII upper-case letters (`'A'` is 65, `'Z'` is 90) are
/// taken as lower-case, which lie 32 above them.
pub open spec fn same_ignoring_ascii_case(a: char, b: char) -> bool {
    ||| a == b
    ||| (65 <= a as u32 <= 90 && b as u32 == a as u32 + 32)
    ||| (65 <= b as u32 <= 90 && a as u32 == b as u32 + 32)
}

/// Whether two strings are equal once ASCII upper-case letters are taken as lower-case.
pub open spec fn eq_ignoring_ascii_case(a: Seq<char>, b: Seq<char>) -> bool {
    &&& a.len() == b.len()
    &&& forall|i: int| 0 <= i < a.len() ==> same_ignoring_ascii_case(#[trigger] a[i], b[i])
}

fn same_char_ignoring_ascii_case(a: char, b: char) -> (r: bool)
    ensures
        r == same_ignoring_ascii_case(a, b),
{
    let x = a as u32;
    let y = b as u32;
    a == b || (65 <= x && x <= 90 && y == x + 32) || (65 <= y && y <= 90 && x == y + 32)
}

/// Compares two strings character by character, ignoring ASCII case.
fn str_eq_ignore_ascii_case(a: &str, b: &str) -> (r: bool)
    ensures
        r == eq_ignoring_ascii_case(a@, b@),
{
    let n = a.unicode_len();
    if n != b.unicode_len() {
        return false;
    }
    let mut i: usize = 0;
    while i < n
        invariant
            n == a@.len(),
            n == b@.len(),
            i <= n,
            forall|k: int| 0 <= k < i ==> same_ignoring_ascii_case(#[trigger] a@[k], b@[k]),
        decreases n - i,
    {
        if !same_char_ignoring_ascii_case(a.get_char(i), b.get_char(i)) {
            return false;
        }
        i = i + 1;
    }
    true
}

/// We want to either increment or decrement the volume.
#[derive(Debug, Clone, Copy, PartialEq, Eq, Structural)]
pub enum Msg {
    /// Volume up
    Up,
    /// Volume down
    Down,
}

/// What reading the word `s` as a command gives.
pub open spec fn spec_parse_msg(s: Seq<char>) -> Result<Msg, Seq<char>> {
    if eq_ignoring_ascii_case(s, "up"@) {
        Ok(Msg::Up)
    } else if eq_ignoring_ascii_case(s, "down"@) {
        Ok(Msg::Down)
    } else {
        Err("unrecognised command"@)
    }
}

impl Msg {
    /// Reads `up` or `down`, in any ASCII case; any other text is an unrecognised command.
    pub fn parse(msg: &str) -> (r: Result<Msg, &'static str>)
        ensures
            match spec_parse_msg(msg@) {
                Ok(m) => r == Ok::<Msg, &'static str>(m),
                Err(e) => r is Err && r->Err_0@ == e,
            },
    {
        if str_eq_ignore_ascii_case(msg, "up") {
            Ok(Msg::Up)
        } else if str_eq_ignore_ascii_case(msg, "down") {
            Ok(Msg::Down)
        } else {
            let e = "unrecognised command";
            proof {
                reveal_strlit("unrecognised command");
            }
            Err(e)
        }
    }
}

impl std::str::FromStr for Msg {
    type Err = &'static str;

    fn from_str(msg: &str) -> (r: Result<Self, Self::Err>)
        ensures
            match spec_parse_msg(msg@) {
                Ok(m) => r == Ok::<Msg, &'static str>(m),
                Err(e) => r is Err && r->Err_0@ == e,
            },
    {
        Msg::parse(msg)
    }
}

} // verus!
