//! What the operations of the library are for: laws over calls of them, in terms of the characters
//! and bytes that go in and come out.

pub mod alert;
pub mod args;
pub mod base64;
pub mod config;
pub mod gc;
pub mod http;
pub mod probe;
pub mod schedule;
pub mod stats;
pub mod text;
pub mod wire;

use vstd::prelude::*;

verus! {

/// `s` is `small` but for the case of its letters; `small` holds no capital.
pub open spec fn in_any_case(s: Seq<char>, small: Seq<char>) -> bool {
    &&& s.len() == small.len()
    &&& forall|k: int|
        0 <= k < s.len() ==> #[trigger] s[k] == small[k] || ('A' <= s[k] <= 'Z' && s[k] as int + 32
            == small[k] as int)
}

/// The text of an optional string is the same.
pub open spec fn same(a: Option<String>, b: Option<String>) -> bool {
    &&& a is Some <==> b is Some
    &&& a is Some ==> a->0@ == b->0@
}

/// The strings have the same texts.
pub open spec fn same_texts(a: Seq<String>, b: Seq<String>) -> bool {
    &&& a.len() == b.len()
    &&& forall|k: int| 0 <= k < a.len() ==> (#[trigger] a[k])@ == b[k]@
}

/// The strings have the texts of `b`, and `x` behind them.
pub open spec fn grown_by(a: Seq<String>, b: Seq<String>, x: Seq<char>) -> bool {
    &&& a.len() == b.len() + 1
    &&& a.last()@ == x
    &&& forall|k: int| 0 <= k < b.len() ==> (#[trigger] a[k])@ == b[k]@
}

pub(crate) proof fn lemma_same_texts(a: Seq<String>, b: Seq<String>)
    ensures
        crate::config::args::texts(a) == crate::config::args::texts(b) <==> same_texts(a, b),
{
    let s = crate::config::args::texts(a);
    let t = crate::config::args::texts(b);
    if s == t {
        assert forall|k: int| 0 <= k < a.len() implies (#[trigger] a[k])@ == b[k]@ by {
            assert(s[k] == t[k]);
        }
    }
    if same_texts(a, b) {
        assert forall|k: int| 0 <= k < s.len() implies s[k] == t[k] by {
            assert(a[k]@ == b[k]@);
        }
        assert(s =~= t);
    }
}

pub(crate) proof fn lemma_grown_by(a: Seq<String>, b: Seq<String>, x: Seq<char>)
    ensures
        crate::config::args::texts(a) == crate::config::args::texts(b).push(x) ==> grown_by(
            a,
            b,
            x,
        ),
{
    let s = crate::config::args::texts(a);
    let t = crate::config::args::texts(b).push(x);
    if s == t {
        assert(s.len() == a.len());
        assert forall|k: int| 0 <= k < b.len() implies (#[trigger] a[k])@ == b[k]@ by {
            assert(s[k] == t[k]);
        }
        assert(s[a.len() - 1] == t[a.len() - 1]);
    }
}

/// Small letters are what letters in any case come to.
pub(crate) proof fn lemma_lower_is_any_case(s: Seq<char>, small: Seq<char>)
    requires
        forall|k: int| 0 <= k < small.len() ==> !('A' <= #[trigger] small[k] <= 'Z'),
    ensures
        crate::text::ascii_lower(s) == small <==> in_any_case(s, small),
{
    let low = crate::text::ascii_lower(s);
    if low == small {
        assert forall|k: int| 0 <= k < s.len() implies #[trigger] s[k] == small[k] || ('A' <= s[k]
            <= 'Z' && s[k] as int + 32 == small[k] as int) by {
            assert(low[k] == crate::text::lower(s[k]));
        }
    }
    if in_any_case(s, small) {
        assert forall|k: int| 0 <= k < s.len() implies low[k] == #[trigger] small[k] by {
            assert(s[k] == small[k] || ('A' <= s[k] <= 'Z' && s[k] as int + 32 == small[k] as int));
            assert(low[k] == crate::text::lower(s[k]));
        }
        assert(low =~= small);
    }
}

} // verus!
