use vstd::prelude::*;
use vstd::std_specs::iter::IteratorSpec;

verus! {

/// Four spaces, the indentation of a detail block.
pub open spec fn margin() -> Seq<char> {
    seq![' ', ' ', ' ', ' ']
}

/// A line break followed by the indentation of a detail block.
pub open spec fn break_margin() -> Seq<char> {
    seq!['\n'] + margin()
}

/// The text of `s` with each line break between two lines followed by four
/// spaces. Lines are split as `str::lines` splits them: at `\n`, with a `\r`
/// right before it dropped, and with no empty line after a final `\n`.
pub open spec fn indent_body(s: Seq<char>) -> Seq<char>
    decreases s.len(),
{
    if s.len() == 0 {
        seq![]
    } else if s.len() == 1 && s[0] == '\n' {
        seq![]
    } else if s.len() == 2 && s[0] == '\r' && s[1] == '\n' {
        seq![]
    } else if s.len() >= 2 && s[0] == '\r' && s[1] == '\n' {
        break_margin() + indent_body(s.subrange(2, s.len() as int))
    } else if s[0] == '\n' {
        break_margin() + indent_body(s.subrange(1, s.len() as int))
    } else {
        seq![s[0]] + indent_body(s.subrange(1, s.len() as int))
    }
}

/// The lines of `s`, each behind four spaces, joined by line breaks.
pub open spec fn indented(s: Seq<char>) -> Seq<char> {
    margin() + indent_body(s)
}

/// The items joined with `sep` between each two of them.
pub open spec fn join(items: Seq<Seq<char>>, sep: Seq<char>) -> Seq<char>
    decreases items.len(),
{
    if items.len() == 0 {
        seq![]
    } else if items.len() == 1 {
        items[0]
    } else {
        join(items.drop_last(), sep) + sep + items.last()
    }
}

/// The characters of the text, in order.
pub fn chars_of(s: &str) -> (r: Vec<char>)
    ensures
        r@ == s@,
{
    broadcast use vstd::string::group_string_axioms;

    let mut it = s.chars();
    let mut r: Vec<char> = Vec::new();
    loop
        invariant
            r@ + it.remaining() == s@,
            it.decrease() is Some,
        ensures
            r@ == s@,
        decreases it.decrease()->0,
    {
        match it.next() {
            Some(c) => {
                proof {
                    assert(r@.push(c) + it.remaining() =~= s@);
                }
                r.push(c);
            },
            None => {
                proof {
                    assert(r@ =~= s@);
                }
                break;
            },
        }
    }
    r
}

/// Relies on `String::push`: appends one character.
#[verifier::external_body]
pub(crate) fn push_char(s: &mut String, c: char)
    ensures
        final(s)@ == old(s)@.push(c),
{
    s.push(c);
}

/// Whether the characters hold `c`.
pub fn has_char(cs: &Vec<char>, c: char) -> (r: bool)
    ensures
        r == cs@.contains(c),
{
    let mut i: usize = 0;
    while i < cs.len()
        invariant
            0 <= i <= cs@.len(),
            forall|j: int| 0 <= j < i ==> cs@[j] != c,
        decreases cs@.len() - i,
    {
        if cs[i] == c {
            return true;
        }
        i = i + 1;
    }
    false
}

/// Indents every line of `s` by four spaces and joins the lines with `\n`.
pub fn indent(s: &str) -> (r: String)
    ensures
        r@ == indented(s@),
{
    let cs = chars_of(s);
    let n = cs.len();
    let mut out = String::from_str("    ");
    proof {
        reveal_strlit("    ");
        reveal_strlit("\n    ");
        assert(cs@.subrange(0, n as int) =~= cs@);
    }
    let mut i: usize = 0;
    while i < n
        invariant
            n == cs@.len(),
            0 <= i <= n,
            out@ + indent_body(cs@.subrange(i as int, n as int)) == indented(s@),
            cs@ == s@,
        decreases n - i,
    {
        let ghost rest = cs@.subrange(i as int, n as int);
        let ghost old_out = out@;
        if cs[i] == '\n' {
            if i + 1 == n {
                proof {
                    assert(indent_body(rest) == Seq::<char>::empty());
                    assert(cs@.subrange(n as int, n as int) =~= Seq::<char>::empty());
                    assert(out@ + Seq::<char>::empty() =~= out@);
                }
                i = n;
            } else {
                proof {
                    assert(rest.subrange(1, rest.len() as int) =~= cs@.subrange(i + 1, n as int));
                }
                out.append("\n    ");
                proof {
                    reveal_strlit("\n    ");
                    assert("\n    "@ =~= break_margin());
                    let tail = indent_body(cs@.subrange(i + 1, n as int));
                    assert(old_out + (break_margin() + tail) =~= out@ + tail);
                }
                i = i + 1;
            }
        } else if cs[i] == '\r' && i + 1 < n && cs[i + 1] == '\n' {
            if i + 2 == n {
                proof {
                    assert(indent_body(rest) == Seq::<char>::empty());
                    assert(cs@.subrange(n as int, n as int) =~= Seq::<char>::empty());
                    assert(out@ + Seq::<char>::empty() =~= out@);
                }
                i = n;
            } else {
                proof {
                    assert(rest.subrange(2, rest.len() as int) =~= cs@.subrange(i + 2, n as int));
                }
                out.append("\n    ");
                proof {
                    reveal_strlit("\n    ");
                    assert("\n    "@ =~= break_margin());
                    let tail = indent_body(cs@.subrange(i + 2, n as int));
                    assert(old_out + (break_margin() + tail) =~= out@ + tail);
                }
                i = i + 2;
            }
        } else {
            proof {
                assert(rest.subrange(1, rest.len() as int) =~= cs@.subrange(i + 1, n as int));
            }
            push_char(&mut out, cs[i]);
            proof {
                let tail = indent_body(cs@.subrange(i + 1, n as int));
                assert(old_out + (seq![cs@[i as int]] + tail) =~= out@ + tail);
            }
            i = i + 1;
        }
    }
    proof {
        assert(cs@.subrange(n as int, n as int) =~= Seq::<char>::empty());
        assert(out@ + Seq::<char>::empty() =~= out@);
    }
    out
}

} // verus!
