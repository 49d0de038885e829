//! Human-readable text for a frame's raw bytes, written by the consumer of the report queue,
//! away from the real-time thread.
use vstd::prelude::*;
use vstd::string::StringExecFns;

verus! {

/// The lower-case hexadecimal digit of value `d`.
pub open spec fn hex_char(d: int) -> char {
    "0123456789abcdef"@[d]
}

/// A byte in lower-case hexadecimal, without leading zeros.
pub open spec fn hex_of(b: u8) -> Seq<char> {
    if b < 16 {
        seq![hex_char(b as int)]
    } else {
        seq![hex_char(b as int / 16), hex_char(b as int % 16)]
    }
}

/// The bytes in hexadecimal, separated by `", "`.
pub open spec fn hex_list(s: Seq<u8>) -> Seq<char>
    decreases s.len(),
{
    if s.len() == 0 {
        Seq::empty()
    } else if s.len() == 1 {
        hex_of(s[0])
    } else {
        hex_list(s.drop_last()) + ", "@ + hex_of(s.last())
    }
}

/// The bytes as a bracketed list of hexadecimal numbers, such as `[90, 3c, 40]`.
pub open spec fn spec_render_raw(s: Seq<u8>) -> Seq<char> {
    "["@ + hex_list(s) + "]"@
}

fn hex_digit(d: u8) -> (r: &'static str)
    requires
        d < 16,
    ensures
        r@ == seq![hex_char(d as int)],
{
    proof {
        reveal_strlit("0123456789abcdef");
    }
    let r = match d {
        0 => {
            proof {
                reveal_strlit("0");
            }
            "0"
        },
        1 => {
            proof {
                reveal_strlit("1");
            }
            "1"
        },
        2 => {
            proof {
                reveal_strlit("2");
            }
            "2"
        },
        3 => {
            proof {
                reveal_strlit("3");
            }
            "3"
        },
        4 => {
            proof {
                reveal_strlit("4");
            }
            "4"
        },
        5 => {
            proof {
                reveal_strlit("5");
            }
            "5"
        },
        6 => {
            proof {
                reveal_strlit("6");
            }
            "6"
        },
        7 => {
            proof {
                reveal_strlit("7");
            }
            "7"
        },
        8 => {
            proof {
                reveal_strlit("8");
            }
            "8"
        },
        9 => {
            proof {
                reveal_strlit("9");
            }
            "9"
        },
        10 => {
            proof {
                reveal_strlit("a");
            }
            "a"
        },
        11 => {
            proof {
                reveal_strlit("b");
            }
            "b"
        },
        12 => {
            proof {
                reveal_strlit("c");
            }
            "c"
        },
        13 => {
            proof {
                reveal_strlit("d");
            }
            "d"
        },
        14 => {
            proof {
                reveal_strlit("e");
            }
            "e"
        },
        _ => {
            proof {
                reveal_strlit("f");
            }
            "f"
        },
    };
    assert(r@ =~= seq![hex_char(d as int)]);
    r
}

/// Writes the raw bytes of a frame as a bracketed list of hexadecimal numbers.
pub fn render_raw(bytes: &[u8]) -> (r: String)
    ensures
        r@ == spec_render_raw(bytes@),
{
    proof {
        reveal_strlit("[");
        reveal_strlit("]");
        reveal_strlit(", ");
    }
    let mut out = String::from_str("[");
    let mut i: usize = 0;
    while i < bytes.len()
        invariant
            i <= bytes@.len(),
            out@ == "["@ + hex_list(bytes@.take(i as int)),
        decreases bytes@.len() - i,
    {
        let b = bytes[i];
        if i > 0 {
            out.append(", ");
        }
        if b >= 16 {
            out.append(hex_digit(b / 16));
        }
        out.append(hex_digit(b % 16));
        proof {
            let t = bytes@.take(i as int + 1);
            assert(t.drop_last() =~= bytes@.take(i as int));
            assert(t.last() == b);
            if i == 0 {
                assert(bytes@.take(0) =~= Seq::<u8>::empty());
            }
            assert(out@ =~= "["@ + hex_list(t));
        }
        i = i + 1;
    }
    assert(bytes@.take(i as int) =~= bytes@);
    out.append("]");
    out
}

} // verus!
