//! Plain value types of the telemetry event schema: operation tags and a
//! truncated list, with an exactly specified human-readable rendering.

use vstd::prelude::*;
use vstd::std_specs::cmp::PartialEqSpec;
use vstd::string::{StrSliceExecFns, StringExecFns};

verus! {

/// A single network operation's kind.
#[derive(Clone, Copy, PartialEq, Eq, Structural, Debug)]
pub enum NetworkOp {
    SshGetTreePack,
    SshGetFiles,
    SshGetPack,
    HttpGetTreePack,
    HttpGetFiles,
    HttpGetPack,
}

/// What a command was blocked on while waiting for other operations.
#[derive(Clone, Copy, PartialEq, Eq, Structural, Debug)]
pub enum BlockedOp {
    Editor,
    Pager,
    ExtDiff,
    ExtHook,
    PythonHook,
    BisectCheck,
    HisteditExec,
    Curses,
    Prompt,
    MergeDriver,
    MergeTool,
}

/// The value equals its type's default.
pub fn is_default<T: core::default::Default + PartialEq>(value: &T) -> (r: bool)
    ensures
        T::obeys_eq_spec() ==> exists|d: T|
            #[trigger] call_ensures(T::default, (), d) && r == value.eq_spec(&d),
{
    let d = T::default();
    *value == d
}

/// One character, rendered for quoting: quotes and backslashes carry a
/// backslash, everything else stands as it is.
pub open spec fn escaped_char(c: char) -> Seq<char> {
    if c == '"' {
        ("\\\"")@
    } else if c == '\\' {
        ("\\\\")@
    } else {
        seq![c]
    }
}

/// A character sequence, rendered for quoting.
pub open spec fn escaped(s: Seq<char>) -> Seq<char>
    decreases s.len(),
{
    if s.len() == 0 {
        Seq::empty()
    } else {
        escaped(s.drop_last()) + escaped_char(s.last())
    }
}

/// A character sequence inside double quotes.
pub open spec fn quoted(s: Seq<char>) -> Seq<char> {
    ("\"")@ + escaped(s) + ("\"")@
}

/// Quoted items, separated by comma and space.
pub open spec fn listed(items: Seq<Seq<char>>) -> Seq<char>
    decreases items.len(),
{
    if items.len() == 0 {
        Seq::empty()
    } else if items.len() == 1 {
        quoted(items[0])
    } else {
        listed(items.drop_last()) + (", ")@ + quoted(items.last())
    }
}

/// The decimal digit `d`.
pub open spec fn digit_char(d: int) -> char {
    if d == 0 {
        '0'
    } else if d == 1 {
        '1'
    } else if d == 2 {
        '2'
    } else if d == 3 {
        '3'
    } else if d == 4 {
        '4'
    } else if d == 5 {
        '5'
    } else if d == 6 {
        '6'
    } else if d == 7 {
        '7'
    } else if d == 8 {
        '8'
    } else {
        '9'
    }
}

/// `n` in decimal, most significant digit first, no leading zeros.
pub open spec fn spec_decimal(n: nat) -> Seq<char>
    decreases n,
{
    if n < 10 {
        seq![digit_char(n as int)]
    } else {
        spec_decimal(n / 10).push(digit_char((n % 10) as int))
    }
}

/// What [`ShortList::describe`] renders: the quoted items in brackets,
/// and, when the list is truncated, how many entries remain.
pub open spec fn spec_describe(items: Seq<Seq<char>>, len: nat) -> Seq<char> {
    let body = ("[")@ + listed(items) + ("]")@;
    if items.len() >= len {
        body
    } else {
        body + (" and ")@ + spec_decimal((len - items.len()) as nat) + (" entries")@
    }
}

/// A truncated list: the first few entries, and the length of the whole.
#[derive(Debug)]
pub struct ShortList {
    short_list: Vec<String>,
    len: usize,
}

impl ShortList {
    /// The retained entries.
    pub closed spec fn spec_items(self) -> Seq<Seq<char>> {
        self.short_list.deep_view()
    }

    /// The length of the full list the entries were drawn from.
    pub closed spec fn spec_len(self) -> nat {
        self.len as nat
    }

    pub fn new(short_list: Vec<String>, len: usize) -> (r: ShortList)
        ensures
            r.spec_items() == short_list.deep_view(),
            r.spec_len() == len as nat,
    {
        ShortList { short_list, len }
    }

    /// Render the list for human consumption: the quoted entries in
    /// brackets and, when entries were dropped, how many more there were.
    pub fn describe(&self) -> (r: String)
        ensures
            r@ == spec_describe(self.spec_items(), self.spec_len()),
    {
        let ghost items = self.spec_items();
        let mut out = String::new();
        out.append("[");
        let n = self.short_list.len();
        let mut i: usize = 0;
        proof {
            assert(items.subrange(0, 0) =~= Seq::<Seq<char>>::empty());
            assert(out@ =~= ("[")@ + listed(items.subrange(0, 0)));
        }
        while i < n
            invariant
                n == self.short_list@.len(),
                items == self.spec_items(),
                i <= n,
                out@ == ("[")@ + listed(items.subrange(0, i as int)),
            decreases n - i,
        {
            if i > 0 {
                out.append(", ");
            }
            append_quoted(&mut out, self.short_list[i].as_str());
            proof {
                assert(items.subrange(0, i + 1).drop_last() =~= items.subrange(0, i as int));
                assert(items.subrange(0, i + 1).last() == items[i as int]);
                assert(items[i as int] == self.short_list@[i as int]@);
                if i == 0 {
                    assert(listed(items.subrange(0, 1)) == quoted(items[0]));
                    assert(out@ =~= ("[")@ + listed(items.subrange(0, 1)));
                } else {
                    assert(listed(items.subrange(0, i + 1)) == listed(items.subrange(0, i as int))
                        + (", ")@ + quoted(items[i as int]));
                    assert(out@ =~= ("[")@ + listed(items.subrange(0, i + 1)));
                }
            }
            i += 1;
        }
        proof {
            assert(items.subrange(0, n as int) =~= items);
        }
        out.append("]");
        if n < self.len {
            out.append(" and ");
            append_decimal(&mut out, self.len - n);
            out.append(" entries");
            proof {
                assert(out@ =~= spec_describe(items, self.spec_len()));
            }
        } else {
            proof {
                assert(out@ =~= spec_describe(items, self.spec_len()));
            }
        }
        out
    }
}

impl PartialEq for ShortList {
    /// The same entries and the same full length.
    fn eq(&self, other: &ShortList) -> (r: bool) {
        if self.len != other.len {
            return false;
        }
        let n = self.short_list.len();
        if n != other.short_list.len() {
            proof {
                assert(self.spec_items().len() != other.spec_items().len());
            }
            return false;
        }
        let mut i: usize = 0;
        while i < n
            invariant
                n == self.short_list@.len(),
                n == other.short_list@.len(),
                i <= n,
                forall|j: int| 0 <= j < i ==> self.spec_items()[j] == other.spec_items()[j],
            decreases n - i,
        {
            if self.short_list[i] != other.short_list[i] {
                proof {
                    assert(self.spec_items()[i as int] != other.spec_items()[i as int]);
                }
                return false;
            }
            i += 1;
        }
        proof {
            assert(self.spec_items() =~= other.spec_items());
        }
        true
    }
}

impl Eq for ShortList {

}

impl vstd::std_specs::cmp::PartialEqSpecImpl for ShortList {
    open spec fn obeys_eq_spec() -> bool {
        true
    }

    open spec fn eq_spec(&self, other: &ShortList) -> bool {
        self.spec_items() == other.spec_items() && self.spec_len() == other.spec_len()
    }
}

impl Default for ShortList {
    /// No entries, drawn from an empty list.
    fn default() -> (r: ShortList)
        ensures
            r.spec_items() == Seq::<Seq<char>>::empty(),
            r.spec_len() == 0,
    {
        let r = ShortList { short_list: Vec::new(), len: 0 };
        proof {
            assert(r.spec_items() =~= Seq::<Seq<char>>::empty());
        }
        r
    }
}

/// Append `s` in double quotes, quotes and backslashes escaped.
fn append_quoted(out: &mut String, s: &str)
    ensures
        final(out)@ == old(out)@ + quoted(s@),
{
    out.append("\"");
    let n = s.unicode_len();
    let mut i: usize = 0;
    proof {
        assert(s@.subrange(0, 0) =~= Seq::<char>::empty());
        assert(out@ =~= old(out)@ + ("\"")@ + escaped(s@.subrange(0, 0)));
    }
    while i < n
        invariant
            n == s@.len(),
            i <= n,
            out@ == old(out)@ + ("\"")@ + escaped(s@.subrange(0, i as int)),
        decreases n - i,
    {
        let c = s.get_char(i);
        if c == '"' {
            out.append("\\\"");
        } else if c == '\\' {
            out.append("\\\\");
        } else {
            let piece = s.substring_char(i, i + 1);
            proof {
                assert(piece@ =~= seq![s@[i as int]]);
            }
            out.append(piece);
        }
        proof {
            assert(s@.subrange(0, i + 1).drop_last() =~= s@.subrange(0, i as int));
            assert(s@.subrange(0, i + 1).last() == s@[i as int]);
            assert(out@ =~= old(out)@ + ("\"")@ + escaped(s@.subrange(0, i + 1)));
        }
        i += 1;
    }
    proof {
        assert(s@.subrange(0, n as int) =~= s@);
    }
    out.append("\"");
    proof {
        assert(final(out)@ =~= old(out)@ + quoted(s@));
    }
}

/// Append one decimal digit.
fn append_digit(out: &mut String, d: usize)
    requires
        d < 10,
    ensures
        final(out)@ == old(out)@ + seq![digit_char(d as int)],
{
    if d == 0 {
        out.append("0");
        proof {
            reveal_strlit("0");
            assert(final(out)@ =~= old(out)@ + seq![digit_char(d as int)]);
        }
    } else if d == 1 {
        out.append("1");
        proof {
            reveal_strlit("1");
            assert(final(out)@ =~= old(out)@ + seq![digit_char(d as int)]);
        }
    } else if d == 2 {
        out.append("2");
        proof {
            reveal_strlit("2");
            assert(final(out)@ =~= old(out)@ + seq![digit_char(d as int)]);
        }
    } else if d == 3 {
        out.append("3");
        proof {
            reveal_strlit("3");
            assert(final(out)@ =~= old(out)@ + seq![digit_char(d as int)]);
        }
    } else if d == 4 {
        out.append("4");
        proof {
            reveal_strlit("4");
            assert(final(out)@ =~= old(out)@ + seq![digit_char(d as int)]);
        }
    } else if d == 5 {
        out.append("5");
        proof {
            reveal_strlit("5");
            assert(final(out)@ =~= old(out)@ + seq![digit_char(d as int)]);
        }
    } else if d == 6 {
        out.append("6");
        proof {
            reveal_strlit("6");
            assert(final(out)@ =~= old(out)@ + seq![digit_char(d as int)]);
        }
    } else if d == 7 {
        out.append("7");
        proof {
            reveal_strlit("7");
            assert(final(out)@ =~= old(out)@ + seq![digit_char(d as int)]);
        }
    } else if d == 8 {
        out.append("8");
        proof {
            reveal_strlit("8");
            assert(final(out)@ =~= old(out)@ + seq![digit_char(d as int)]);
        }
    } else {
        out.append("9");
        proof {
            reveal_strlit("9");
            assert(final(out)@ =~= old(out)@ + seq![digit_char(d as int)]);
        }
    }
}

/// Append `n` in decimal.
fn append_decimal(out: &mut String, n: usize)
    ensures
        final(out)@ == old(out)@ + spec_decimal(n as nat),
    decreases n,
{
    if n >= 10 {
        append_decimal(out, n / 10);
        append_digit(out, n % 10);
        proof {
            assert(spec_decimal((n / 10) as nat).push(digit_char((n % 10) as int))
                =~= spec_decimal((n / 10) as nat) + seq![digit_char((n % 10) as int)]);
            assert(final(out)@ =~= old(out)@ + spec_decimal(n as nat));
        }
    } else {
        append_digit(out, n);
    }
}

} // verus!
