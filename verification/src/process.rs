//! Recognising the game's world server among the host's processes and
//! adding up the memory they use.

use vstd::prelude::*;
use crate::text::chars_of;

verus! {

/// What `str::to_lowercase` returns for the text: its Unicode lower case.
pub uninterp spec fn lowercase_text(s: Seq<char>) -> Seq<char>;

/// Calls `str::to_lowercase`; the result is a function of the text alone,
/// named `lowercase_text`.
#[verifier::external_body]
fn to_lowercase(s: &str) -> (l: String)
    ensures
        l@ == lowercase_text(s@),
{
    s.to_lowercase()
}

/// The word that marks a world server process.
pub open spec fn worldserver_word() -> Seq<char> {
    seq!['w', 'o', 'r', 'l', 'd', 's', 'e', 'r', 'v', 'e', 'r']
}

/// `needle` occurs in `hay` at position `i`.
pub open spec fn occurs_at_spec(hay: Seq<char>, needle: Seq<char>, i: int) -> bool {
    0 <= i && i + needle.len() <= hay.len() && hay.subrange(i, i + needle.len()) == needle
}

/// `needle` occurs in `hay` (`str::contains` with a string pattern).
pub open spec fn occurs_in(hay: Seq<char>, needle: Seq<char>) -> bool {
    exists|i: int| #[trigger] occurs_at_spec(hay, needle, i)
}

/// Whether `needle` occurs at position `i` of `hay`.
fn occurs_at(hay: &Vec<char>, needle: &Vec<char>, i: usize) -> (b: bool)
    requires
        i + needle.len() <= hay.len(),
    ensures
        b == (hay@.subrange(i as int, i + needle.len()) == needle@),
{
    let mut k: usize = 0;
    while k < needle.len()
        invariant
            i + needle.len() <= hay.len(),
            0 <= k <= needle.len(),
            forall|j: int| 0 <= j < k ==> hay@[i + j] == needle@[j],
        decreases needle.len() - k,
    {
        if hay[i + k] != needle[k] {
            assert(hay@.subrange(i as int, i + needle.len())[k as int] != needle@[k as int]);
            return false;
        }
        k += 1;
    }
    assert(hay@.subrange(i as int, i + needle.len()) =~= needle@);
    true
}

/// Whether `needle` occurs in `hay`.
pub fn contains_chars(hay: &Vec<char>, needle: &Vec<char>) -> (b: bool)
    ensures
        b == occurs_in(hay@, needle@),
{
    if needle.len() > hay.len() {
        assert forall|j: int| !#[trigger] occurs_at_spec(hay@, needle@, j) by {}
        return false;
    }
    let last = hay.len() - needle.len();
    let mut i: usize = 0;
    while i < last
        invariant
            last + needle.len() == hay.len(),
            0 <= i <= last,
            forall|j: int| 0 <= j < i ==> !#[trigger] occurs_at_spec(hay@, needle@, j),
        decreases last - i,
    {
        if occurs_at(hay, needle, i) {
            assert(occurs_at_spec(hay@, needle@, i as int));
            return true;
        }
        i += 1;
    }
    if occurs_at(hay, needle, last) {
        assert(occurs_at_spec(hay@, needle@, last as int));
        return true;
    }
    assert forall|j: int| !#[trigger] occurs_at_spec(hay@, needle@, j) by {
        if 0 <= j && j + needle.len() <= hay.len() && j != last {
            assert(j < i);
        }
    }
    false
}

/// A process is a world server when its lower-cased name contains
/// `worldserver`.
pub open spec fn is_worldserver_name(name: Seq<char>) -> bool {
    occurs_in(lowercase_text(name), worldserver_word())
}

/// Whether the process called `name` is a world server.
pub fn is_worldserver(name: &str) -> (b: bool)
    ensures
        b == is_worldserver_name(name@),
{
    let lower = to_lowercase(name);
    let hay = chars_of(lower.as_str());
    let needle = vec!['w', 'o', 'r', 'l', 'd', 's', 'e', 'r', 'v', 'e', 'r'];
    assert(needle@ =~= worldserver_word());
    contains_chars(&hay, &needle)
}

/// A process of the host: its name and the memory it uses, in bytes.
pub struct ProcessSample {
    pub name: String,
    pub memory: u64,
}

/// The memory used by the world server processes among `ps`, in bytes.
pub open spec fn worldserver_memory_total(ps: Seq<ProcessSample>) -> int
    decreases ps.len(),
{
    if ps.len() == 0 {
        0
    } else {
        worldserver_memory_total(ps.drop_last()) + if is_worldserver_name(ps.last().name@) {
            ps.last().memory as int
        } else {
            0
        }
    }
}

proof fn lemma_total_monotone(ps: Seq<ProcessSample>, i: int)
    requires
        0 <= i <= ps.len(),
    ensures
        0 <= worldserver_memory_total(ps.take(i)) <= worldserver_memory_total(ps),
    decreases ps.len() - i,
{
    if i < ps.len() {
        lemma_total_monotone(ps, i + 1);
        assert(ps.take(i + 1).drop_last() =~= ps.take(i));
    } else {
        assert(ps.take(i) =~= ps);
    }
    lemma_total_nonneg(ps.take(i));
}

proof fn lemma_total_nonneg(ps: Seq<ProcessSample>)
    ensures
        0 <= worldserver_memory_total(ps),
    decreases ps.len(),
{
    if ps.len() > 0 {
        lemma_total_nonneg(ps.drop_last());
    }
}

/// The memory used by the world server processes among `ps`; `None` when
/// the total does not fit in 64 bits.
pub fn worldserver_memory(ps: &Vec<ProcessSample>) -> (total: Option<u64>)
    ensures
        match total {
            Some(t) => t == worldserver_memory_total(ps@),
            None => worldserver_memory_total(ps@) > u64::MAX,
        },
{
    let mut sum: u64 = 0;
    let mut i: usize = 0;
    while i < ps.len()
        invariant
            0 <= i <= ps.len(),
            sum == worldserver_memory_total(ps@.take(i as int)),
        decreases ps.len() - i,
    {
        assert(ps@.take(i + 1).drop_last() =~= ps@.take(i as int));
        if is_worldserver(ps[i].name.as_str()) {
            let m = ps[i].memory;
            if m > u64::MAX - sum {
                proof {
                    lemma_total_monotone(ps@, i + 1);
                }
                return None;
            }
            sum = sum + m;
        }
        i += 1;
    }
    assert(ps@.take(ps.len() as int) =~= ps@);
    Some(sum)
}

/// Law: the world server memory of two lists put together is the sum of
/// theirs, wherever the world servers stand and however long the lists are.
pub proof fn law_memory_of_joined_lists(a: Seq<ProcessSample>, b: Seq<ProcessSample>)
    ensures
        worldserver_memory_total(a + b) == worldserver_memory_total(a) + worldserver_memory_total(b),
    decreases b.len(),
{
    if b.len() == 0 {
        assert(a + b =~= a);
    } else {
        law_memory_of_joined_lists(a, b.drop_last());
        assert((a + b).drop_last() =~= a + b.drop_last());
        assert((a + b).last() == b.last());
    }
}

/// Law: adding a process to any list adds its memory to the total when its
/// lower-cased name contains `worldserver`, and nothing otherwise.
pub proof fn law_memory_of_one_more(ps: Seq<ProcessSample>, p: ProcessSample)
    ensures
        occurs_in(lowercase_text(p.name@), seq!['w', 'o', 'r', 'l', 'd', 's', 'e', 'r', 'v', 'e', 'r'])
            ==> worldserver_memory_total(ps.push(p)) == worldserver_memory_total(ps) + p.memory,
        !occurs_in(lowercase_text(p.name@), seq!['w', 'o', 'r', 'l', 'd', 's', 'e', 'r', 'v', 'e', 'r'])
            ==> worldserver_memory_total(ps.push(p)) == worldserver_memory_total(ps),
        occurs_in(lowercase_text(p.name@), seq!['w', 'o', 'r', 'l', 'd', 's', 'e', 'r', 'v', 'e', 'r'])
            ==> worldserver_memory_total(seq![p] + ps) == worldserver_memory_total(ps) + p.memory,
{
    assert(ps.push(p).drop_last() =~= ps);
    law_memory_of_joined_lists(seq![p], ps);
    assert(seq![p].drop_last() =~= Seq::<ProcessSample>::empty());
    assert(seq![p].last() == p);
    assert(worldserver_memory_total(seq![p]) == worldserver_memory_total(
        Seq::<ProcessSample>::empty(),
    ) + if is_worldserver_name(p.name@) {
        p.memory as int
    } else {
        0
    });
}

} // verus!
