//! Prometheus text exposition: the parser that turns a scrape into a table
//! from metric name to the text of its value.
//!
//! Each line is split into white-space separated words. Comment lines
//! (starting with `#`) and lines with fewer than two words are skipped. When
//! the second word is a floating point literal that `str::parse` accepts, the first word is
//! recorded with it; a first word with labels (`name{...}`) is recorded both
//! under its bare name and under the full labelled name. Later lines
//! overwrite earlier ones.

use vstd::prelude::*;
use crate::text::{is_white_space, white_space, chars_of};
use crate::number::{float_syntax, find_char, float_text, chars_between, position_of, ascii_digits, law_integers_are_numbers};

verus! {

/// Builds a `String` from `cs[from..to]` through `FromIterator<&char>`.
#[verifier::external_body]
fn string_from_chars(cs: &Vec<char>, from: usize, to: usize) -> (s: String)
    requires
        from <= to <= cs.len(),
    ensures
        s@ == cs@.subrange(from as int, to as int),
{
    cs[from..to].iter().collect()
}

// ---------------------------------------------------------------------------
// Specification of the text format
// ---------------------------------------------------------------------------

/// Scanning the first `i` characters of `s` for words: the words closed so
/// far, as (start, end) spans, and the start of the word still open.
pub open spec fn scan_words(s: Seq<char>, i: int) -> (Seq<(int, int)>, Option<int>)
    decreases i,
{
    if i <= 0 {
        (seq![], None)
    } else {
        let (done, open) = scan_words(s, i - 1);
        if is_white_space(s[i - 1]) {
            match open {
                Some(a) => (done.push((a, i - 1)), None),
                None => (done, None),
            }
        } else {
            match open {
                Some(a) => (done, Some(a)),
                None => (done, Some(i - 1)),
            }
        }
    }
}

/// The spans of the maximal runs of non-white-space characters of `s`
/// (`str::split_whitespace`).
pub open spec fn word_spans(s: Seq<char>) -> Seq<(int, int)> {
    let (done, open) = scan_words(s, s.len() as int);
    match open {
        Some(a) => done.push((a, s.len() as int)),
        None => done,
    }
}

/// The words of `s`, in order.
pub open spec fn words(s: Seq<char>) -> Seq<Seq<char>> {
    word_spans(s).map_values(|p: (int, int)| s.subrange(p.0, p.1))
}

/// The (name, value) pairs that one line records, in order.
pub open spec fn line_samples(line: Seq<char>) -> Seq<(Seq<char>, Seq<char>)> {
    let ws = words(line);
    if line.len() > 0 && line[0] == '#' {
        seq![]
    } else if ws.len() >= 2 && float_syntax(ws[1]) {
        match find_char(ws[0], '{', 0) {
            Some(idx) => seq![(ws[0].take(idx), ws[1]), (ws[0], ws[1])],
            None => seq![(ws[0], ws[1])],
        }
    } else {
        seq![]
    }
}

/// `m` after recording `samples` in order; a later sample replaces an
/// earlier one with the same name.
pub open spec fn record_all(
    m: Map<Seq<char>, Seq<char>>,
    samples: Seq<(Seq<char>, Seq<char>)>,
) -> Map<Seq<char>, Seq<char>>
    decreases samples.len(),
{
    if samples.len() == 0 {
        m
    } else {
        record_all(m, samples.drop_last()).insert(samples.last().0, samples.last().1)
    }
}

/// The table that the given lines produce.
pub open spec fn metrics_of_lines(lines: Seq<Seq<char>>) -> Map<Seq<char>, Seq<char>>
    decreases lines.len(),
{
    if lines.len() == 0 {
        Map::empty()
    } else {
        record_all(metrics_of_lines(lines.drop_last()), line_samples(lines.last()))
    }
}

/// Scanning the first `i` characters of `t` for newlines: the lines closed so
/// far and the start of the line still open.
pub open spec fn scan_lines(t: Seq<char>, i: int) -> (Seq<Seq<char>>, int)
    decreases i,
{
    if i <= 0 {
        (seq![], 0)
    } else {
        let (done, start) = scan_lines(t, i - 1);
        if t[i - 1] == '\n' {
            (done.push(t.subrange(start, i - 1)), i)
        } else {
            (done, start)
        }
    }
}

/// The lines of `t`: the text cut at each `\n`. A `\r` before the `\n` stays
/// in the line, where it is white space and so changes no word.
pub open spec fn lines_of(t: Seq<char>) -> Seq<Seq<char>> {
    let (done, start) = scan_lines(t, t.len() as int);
    done.push(t.subrange(start, t.len() as int))
}

/// The table that parsing `text` produces.
pub open spec fn parsed_metrics(text: Seq<char>) -> Map<Seq<char>, Seq<char>> {
    metrics_of_lines(lines_of(text))
}

// ---------------------------------------------------------------------------
// The table
// ---------------------------------------------------------------------------

/// Metric name to the text of its value; no name occurs twice.
pub struct MetricTable {
    entries: Vec<(String, String)>,
    model: Ghost<Map<Seq<char>, Seq<char>>>,
}

impl View for MetricTable {
    type V = Map<Seq<char>, Seq<char>>;

    closed spec fn view(&self) -> Map<Seq<char>, Seq<char>> {
        self.model@
    }
}

impl MetricTable {
    /// The table is consistent: entries have distinct names and are exactly
    /// the pairs of the map it stands for.
    pub closed spec fn wf(&self) -> bool {
        &&& forall|i: int, j: int|
            0 <= i < j < self.entries@.len() ==> #[trigger] self.entries@[i].0@
                != #[trigger] self.entries@[j].0@
        &&& forall|i: int|
            0 <= i < self.entries@.len() ==> self.model@.contains_key(
                #[trigger] self.entries@[i].0@,
            ) && self.model@[self.entries@[i].0@] == self.entries@[i].1@
        &&& forall|k: Seq<char>|
            #[trigger] self.model@.contains_key(k) ==> exists|i: int|
                0 <= i < self.entries@.len() && #[trigger] self.entries@[i].0@ == k
    }

    /// An empty table.
    pub fn new() -> (t: MetricTable)
        ensures
            t.wf(),
            t@ == Map::<Seq<char>, Seq<char>>::empty(),
    {
        MetricTable { entries: Vec::new(), model: Ghost(Map::empty()) }
    }

    /// The number of names in the table.
    pub fn len(&self) -> (n: usize)
        requires
            self.wf(),
        ensures
            n == self@.dom().len(),
    {
        proof {
            self.lemma_dom_len();
        }
        self.entries.len()
    }

    proof fn lemma_dom_len(&self)
        requires
            self.wf(),
        ensures
            self@.dom().finite(),
            self.entries@.len() == self@.dom().len(),
        decreases self.entries@.len(),
    {
        let names = self.entries@.map_values(|e: (String, String)| e.0@);
        assert forall|i: int, j: int| 0 <= i < j < names.len() implies names[i] != names[j] by {
            assert(names[i] == self.entries@[i].0@);
            assert(names[j] == self.entries@[j].0@);
        }
        assert(names.no_duplicates());
        assert(self@.dom() =~= names.to_set()) by {
            assert forall|k: Seq<char>| self@.dom().contains(k) implies names.to_set().contains(k) by {
                let i = choose|i: int| 0 <= i < self.entries@.len() && #[trigger] self.entries@[i].0@ == k;
                assert(names[i] == k);
            }
            assert forall|k: Seq<char>| names.to_set().contains(k) implies self@.dom().contains(k) by {
                let i = choose|i: int| 0 <= i < names.len() && names[i] == k;
                assert(self.entries@[i].0@ == k);
            }
        }
        names.unique_seq_to_set();
    }

    /// The text recorded for `name`, if any.
    pub fn get(&self, name: &str) -> (r: Option<&String>)
        requires
            self.wf(),
        ensures
            match r {
                Some(v) => self@.contains_key(name@) && v@ == self@[name@],
                None => !self@.contains_key(name@),
            },
    {
        let key = String::from_str(name);
        let mut i: usize = 0;
        while i < self.entries.len()
            invariant
                self.wf(),
                key@ == name@,
                0 <= i <= self.entries@.len(),
                forall|j: int| 0 <= j < i ==> self.entries@[j].0@ != key@,
            decreases self.entries@.len() - i,
        {
            if self.entries[i].0 == key {
                return Some(&self.entries[i].1);
            }
            i += 1;
        }
        None
    }

    /// Records `value` under `name`, replacing what was there.
    pub fn insert(&mut self, name: String, value: String)
        requires
            old(self).wf(),
        ensures
            final(self).wf(),
            final(self)@ == old(self)@.insert(name@, value@),
    {
        let ghost old_entries = self.entries@;
        let mut i: usize = 0;
        while i < self.entries.len()
            invariant
                self.wf(),
                self.entries@ == old_entries,
                self@ == old(self)@,
                0 <= i <= self.entries@.len(),
                forall|j: int| 0 <= j < i ==> self.entries@[j].0@ != name@,
            decreases self.entries@.len() - i,
        {
            if self.entries[i].0 == name {
                let ghost new_model = self.model@.insert(name@, value@);
                self.entries.set(i, (name, value));
                self.model = Ghost(new_model);
                assert forall|k: Seq<char>| #[trigger] self.model@.contains_key(k) implies exists|j: int|
                    0 <= j < self.entries@.len() && #[trigger] self.entries@[j].0@ == k by {
                    if k != self.entries@[i as int].0@ {
                        let j = choose|j: int| 0 <= j < old_entries.len() && #[trigger] old_entries[j].0@ == k;
                        assert(self.entries@[j].0@ == k);
                    }
                }
                return;
            }
            i += 1;
        }
        let ghost new_model = self.model@.insert(name@, value@);
        self.entries.push((name, value));
        self.model = Ghost(new_model);
        assert forall|k: Seq<char>| #[trigger] self.model@.contains_key(k) implies exists|j: int|
            0 <= j < self.entries@.len() && #[trigger] self.entries@[j].0@ == k by {
            if k != name@ {
                let j = choose|j: int| 0 <= j < old_entries.len() && #[trigger] old_entries[j].0@ == k;
                assert(self.entries@[j].0@ == k);
            } else {
                assert(self.entries@[old_entries.len() as int].0@ == k);
            }
        }
    }
}

// ---------------------------------------------------------------------------
// The parser
// ---------------------------------------------------------------------------

/// The executable spans `v` are the spans `w`.
pub open spec fn same_spans(v: Seq<(usize, usize)>, w: Seq<(int, int)>) -> bool {
    &&& v.len() == w.len()
    &&& forall|k: int|
        0 <= k < v.len() ==> (#[trigger] v[k]).0 as int == w[k].0 && v[k].1 as int == w[k].1
}

/// The executable open start `o` is the open start `p`.
pub open spec fn same_open(o: Option<usize>, p: Option<int>) -> bool {
    match (o, p) {
        (None, None) => true,
        (Some(a), Some(b)) => a as int == b,
        _ => false,
    }
}

/// The spans of the words of `line`.
fn word_spans_in(line: &Vec<char>) -> (spans: Vec<(usize, usize)>)
    ensures
        same_spans(spans@, word_spans(line@)),
        forall|k: int|
            0 <= k < spans@.len() ==> (#[trigger] spans@[k]).0 <= spans@[k].1 <= line.len(),
{
    let mut done: Vec<(usize, usize)> = Vec::new();
    let mut open: Option<usize> = None;
    let mut i: usize = 0;
    while i < line.len()
        invariant
            0 <= i <= line.len(),
            same_spans(done@, scan_words(line@, i as int).0),
            same_open(open, scan_words(line@, i as int).1),
            forall|k: int| 0 <= k < done@.len() ==> (#[trigger] done@[k]).0 <= done@[k].1 <= i,
            open matches Some(a) ==> a <= i,
        decreases line.len() - i,
    {
        if white_space(line[i]) {
            if let Some(a) = open {
                done.push((a, i));
                open = None;
            }
        } else if open.is_none() {
            open = Some(i);
        }
        i += 1;
    }
    if let Some(a) = open {
        done.push((a, line.len()));
    }
    done
}

/// Records the samples of one line in `table`.
fn record_line(table: &mut MetricTable, line: &Vec<char>)
    requires
        old(table).wf(),
    ensures
        final(table).wf(),
        final(table)@ == record_all(old(table)@, line_samples(line@)),
{
    if line.len() > 0 && line[0] == '#' {
        return;
    }
    let spans = word_spans_in(line);
    let ghost ws = words(line@);
    assert(ws.len() == spans@.len());
    if spans.len() < 2 {
        return;
    }
    let (s0, e0) = spans[0];
    let (s1, e1) = spans[1];
    assert(ws[0] == line@.subrange(s0 as int, e0 as int));
    assert(ws[1] == line@.subrange(s1 as int, e1 as int));
    let value_chars = chars_between(line, s1, e1);
    if !float_text(&value_chars) {
        return;
    }
    let name_chars = chars_between(line, s0, e0);
    let value = string_from_chars(line, s1, e1);
    let name = string_from_chars(line, s0, e0);
    let ghost before = table@;
    let ghost samples = line_samples(line@);
    match position_of(&name_chars, '{') {
        Some(idx) => {
            proof {
                crate::number::lemma_find_char_bounds(name_chars@, '{', 0);
            }
            let bare = string_from_chars(line, s0, s0 + idx);
            let ghost first = (ws[0].take(idx as int), ws[1]);
            assert(bare@ == first.0);
            assert(samples =~= seq![first, (ws[0], ws[1])]);
            assert(samples.drop_last() =~= seq![first]);
            assert(samples.drop_last().drop_last() =~= Seq::<(Seq<char>, Seq<char>)>::empty());
            assert(record_all(before, samples.drop_last()) == record_all(
                before,
                samples.drop_last().drop_last(),
            ).insert(first.0, first.1));
            let copy = value.clone();
            assert(copy@ == value@);
            table.insert(bare, copy);
            assert(table@ == record_all(before, samples.drop_last()));
            assert(record_all(before, samples) == record_all(before, samples.drop_last()).insert(
                ws[0],
                ws[1],
            ));
            table.insert(name, value);
            assert(table@ == record_all(before, samples));
        },
        None => {
            assert(samples =~= seq![(ws[0], ws[1])]);
            assert(samples.drop_last() =~= Seq::<(Seq<char>, Seq<char>)>::empty());
            assert(record_all(before, samples.drop_last()) == before);
            table.insert(name, value);
            assert(table@ == record_all(before, samples));
        },
    }
}

proof fn lemma_scan_lines_start(t: Seq<char>, i: int)
    requires
        0 <= i,
    ensures
        0 <= scan_lines(t, i).1 <= i,
    decreases i,
{
    if i > 0 {
        lemma_scan_lines_start(t, i - 1);
    }
}

/// Parses a Prometheus text scrape into the table of metric values.
pub fn parse_prometheus_metrics(text: &str) -> (table: MetricTable)
    ensures
        table.wf(),
        table@ == parsed_metrics(text@),
{
    let chars = chars_of(text);
    let mut table = MetricTable::new();
    let mut line: Vec<char> = Vec::new();
    let mut i: usize = 0;
    while i < chars.len()
        invariant
            chars@ == text@,
            0 <= i <= chars.len(),
            table.wf(),
            0 <= scan_lines(chars@, i as int).1 <= i,
            table@ == metrics_of_lines(scan_lines(chars@, i as int).0),
            line@ == chars@.subrange(scan_lines(chars@, i as int).1, i as int),
        decreases chars.len() - i,
    {
        let ghost done = scan_lines(chars@, i as int).0;
        if chars[i] == '\n' {
            record_line(&mut table, &line);
            assert(done.push(line@).drop_last() =~= done);
            line = Vec::new();
            assert(line@ =~= chars@.subrange(i + 1, i + 1));
        } else {
            line.push(chars[i]);
            assert(line@ =~= chars@.subrange(scan_lines(chars@, i + 1).1, i + 1));
        }
        i += 1;
    }
    let ghost done = scan_lines(chars@, chars@.len() as int).0;
    record_line(&mut table, &line);
    assert(done.push(line@).drop_last() =~= done);
    table
}

// ---------------------------------------------------------------------------
// Laws
// ---------------------------------------------------------------------------

proof fn lemma_scan_lines_prefix(a: Seq<char>, t: Seq<char>, i: int)
    requires
        0 <= i <= a.len(),
        a.len() <= t.len(),
        t.take(a.len() as int) == a,
    ensures
        scan_lines(t, i) == scan_lines(a, i),
    decreases i,
{
    if i > 0 {
        lemma_scan_lines_prefix(a, t, i - 1);
        assert(t[i - 1] == t.take(a.len() as int)[i - 1]);
        let (done, start) = scan_lines(a, i - 1);
        lemma_scan_lines_start(a, i - 1);
        assert(t.subrange(start, i - 1) =~= a.subrange(start, i - 1));
    }
}

proof fn lemma_scan_lines_no_newline(t: Seq<char>, from: int, i: int)
    requires
        0 <= from <= i <= t.len(),
        forall|j: int| from <= j < t.len() ==> t[j] != '\n',
    ensures
        scan_lines(t, i) == scan_lines(t, from),
    decreases i - from,
{
    if i > from {
        lemma_scan_lines_no_newline(t, from, i - 1);
    }
}

/// Law: a line appended to a scrape is read after everything before it. The
/// table of `text` followed by a newline and `line` is the table of `text`
/// with the samples of `line` recorded on top; in particular a later sample
/// replaces an earlier one of the same name.
pub proof fn law_appended_line(text: Seq<char>, line: Seq<char>)
    requires
        forall|j: int| 0 <= j < line.len() ==> line[j] != '\n',
    ensures
        parsed_metrics(text + seq!['\n'] + line) == record_all(
            parsed_metrics(text),
            line_samples(line),
        ),
{
    let t = text + seq!['\n'] + line;
    let n = text.len() as int;
    assert(t.take(n) =~= text);
    lemma_scan_lines_prefix(text, t, n);
    let (done, start) = scan_lines(text, n);
    lemma_scan_lines_start(text, n);
    assert(t[n] == '\n');
    assert(t.subrange(start, n) =~= text.subrange(start, n));
    assert(scan_lines(t, n + 1) == (done.push(text.subrange(start, n)), n + 1));
    assert forall|j: int| n + 1 <= j < t.len() implies t[j] != '\n' by {
        assert(t[j] == line[j - n - 1]);
    }
    lemma_scan_lines_no_newline(t, n + 1, t.len() as int);
    assert(t.subrange(n + 1, t.len() as int) =~= line);
    let lines = lines_of(text);
    assert(lines_of(t) =~= lines.push(line));
    assert(lines.push(line).drop_last() =~= lines);
}

/// Law: a comment line changes nothing: appending a line that starts with
/// `#` leaves the table as it was.
pub proof fn law_comment_line_ignored(text: Seq<char>, line: Seq<char>)
    requires
        forall|j: int| 0 <= j < line.len() ==> line[j] != '\n',
        line.len() > 0,
        line[0] == '#',
    ensures
        parsed_metrics(text + seq!['\n'] + line) == parsed_metrics(text),
{
    law_appended_line(text, line);
}

proof fn lemma_record_all_values(
    m: Map<Seq<char>, Seq<char>>,
    samples: Seq<(Seq<char>, Seq<char>)>,
)
    requires
        forall|k: Seq<char>| #[trigger] m.contains_key(k) ==> float_syntax(m[k]),
        forall|i: int| 0 <= i < samples.len() ==> float_syntax(#[trigger] samples[i].1),
    ensures
        forall|k: Seq<char>|
            #[trigger] record_all(m, samples).contains_key(k) ==> float_syntax(
                record_all(m, samples)[k],
            ),
    decreases samples.len(),
{
    if samples.len() > 0 {
        let rest = samples.drop_last();
        assert forall|i: int| 0 <= i < rest.len() implies float_syntax(#[trigger] rest[i].1) by {
            assert(rest[i] == samples[i]);
        }
        lemma_record_all_values(m, rest);
        assert(float_syntax(samples[samples.len() - 1].1));
        let r = record_all(m, rest);
        assert(record_all(m, samples) == r.insert(samples.last().0, samples.last().1));
    }
}

proof fn lemma_lines_values(lines: Seq<Seq<char>>)
    ensures
        forall|k: Seq<char>|
            #[trigger] metrics_of_lines(lines).contains_key(k) ==> float_syntax(
                metrics_of_lines(lines)[k],
            ),
    decreases lines.len(),
{
    if lines.len() > 0 {
        lemma_lines_values(lines.drop_last());
        let samples = line_samples(lines.last());
        assert forall|i: int| 0 <= i < samples.len() implies float_syntax(#[trigger] samples[i].1) by {}
        lemma_record_all_values(metrics_of_lines(lines.drop_last()), samples);
    }
}

/// Law: every value in a parsed table is a floating point literal that
/// `str::parse` accepts, so reading it as a number cannot fail.
pub proof fn law_values_are_numbers(text: Seq<char>)
    ensures
        forall|k: Seq<char>|
            #[trigger] parsed_metrics(text).contains_key(k) ==> float_syntax(
                parsed_metrics(text)[k],
            ),
{
    lemma_lines_values(lines_of(text));
}

/// Law: a sample whose name carries labels (`name{...}`) is recorded both
/// under the bare name and under the full labelled name, with the same value.
pub proof fn law_labelled_sample_recorded_twice(m: Map<Seq<char>, Seq<char>>, line: Seq<char>)
    requires
        !(line.len() > 0 && line[0] == '#'),
        words(line).len() >= 2,
        float_syntax(words(line)[1]),
        find_char(words(line)[0], '{', 0) is Some,
    ensures
        ({
            let ws = words(line);
            let idx = find_char(ws[0], '{', 0)->0;
            let after = record_all(m, line_samples(line));
            &&& after.contains_key(ws[0]) && after[ws[0]] == ws[1]
            &&& after.contains_key(ws[0].take(idx)) && after[ws[0].take(idx)] == ws[1]
        }),
{
    let ws = words(line);
    let idx = find_char(ws[0], '{', 0)->0;
    let samples = line_samples(line);
    assert(samples =~= seq![(ws[0].take(idx), ws[1]), (ws[0], ws[1])]);
    assert(samples.drop_last().drop_last() =~= Seq::<(Seq<char>, Seq<char>)>::empty());
    let first = record_all(m, samples.drop_last());
    assert(first == record_all(m, samples.drop_last().drop_last()).insert(ws[0].take(idx), ws[1]));
    assert(first == m.insert(ws[0].take(idx), ws[1]));
    let after = record_all(m, samples);
    assert(after == first.insert(ws[0], ws[1]));
}

proof fn lemma_record_all_union(
    m1: Map<Seq<char>, Seq<char>>,
    m2: Map<Seq<char>, Seq<char>>,
    samples: Seq<(Seq<char>, Seq<char>)>,
)
    ensures
        record_all(m1.union_prefer_right(m2), samples) == m1.union_prefer_right(
            record_all(m2, samples),
        ),
    decreases samples.len(),
{
    if samples.len() > 0 {
        lemma_record_all_union(m1, m2, samples.drop_last());
        let (k, v) = samples.last();
        assert(m1.union_prefer_right(record_all(m2, samples.drop_last())).insert(k, v)
            =~= m1.union_prefer_right(record_all(m2, samples.drop_last()).insert(k, v)));
    }
}

proof fn lemma_metrics_of_joined_lines(l1: Seq<Seq<char>>, l2: Seq<Seq<char>>)
    ensures
        metrics_of_lines(l1 + l2) == metrics_of_lines(l1).union_prefer_right(metrics_of_lines(l2)),
    decreases l2.len(),
{
    if l2.len() == 0 {
        assert(l1 + l2 =~= l1);
        assert(metrics_of_lines(l1).union_prefer_right(Map::empty()) =~= metrics_of_lines(l1));
    } else {
        lemma_metrics_of_joined_lines(l1, l2.drop_last());
        assert((l1 + l2).drop_last() =~= l1 + l2.drop_last());
        assert((l1 + l2).last() == l2.last());
        lemma_record_all_union(
            metrics_of_lines(l1),
            metrics_of_lines(l2.drop_last()),
            line_samples(l2.last()),
        );
    }
}

proof fn lemma_scan_lines_joined(a: Seq<char>, b: Seq<char>, i: int)
    requires
        0 <= i <= b.len(),
    ensures
        ({
            let t = a + seq!['\n'] + b;
            let n = a.len() as int;
            scan_lines(t, n + 1 + i) == (lines_of(a) + scan_lines(b, i).0, n + 1
                + scan_lines(b, i).1)
        }),
    decreases i,
{
    let t = a + seq!['\n'] + b;
    let n = a.len() as int;
    if i == 0 {
        assert(t.take(n) =~= a);
        lemma_scan_lines_prefix(a, t, n);
        let (done, start) = scan_lines(a, n);
        lemma_scan_lines_start(a, n);
        assert(t[n] == '\n');
        assert(t.subrange(start, n) =~= a.subrange(start, n));
        assert(lines_of(a) + Seq::<Seq<char>>::empty() =~= lines_of(a));
    } else {
        lemma_scan_lines_joined(a, b, i - 1);
        lemma_scan_lines_start(b, i - 1);
        let (done, start) = scan_lines(b, i - 1);
        assert(t[n + i] == b[i - 1]);
        if b[i - 1] == '\n' {
            assert(t.subrange(n + 1 + start, n + i) =~= b.subrange(start, i - 1));
            assert((lines_of(a) + done).push(b.subrange(start, i - 1)) =~= lines_of(a) + done.push(
                b.subrange(start, i - 1),
            ));
        }
    }
}

/// Law: parsing two texts joined by a newline gives the table of the first
/// overlaid by the table of the second: every name takes its value from the
/// second part when the second part records it, and from the first otherwise.
pub proof fn law_joined_texts(a: Seq<char>, b: Seq<char>)
    ensures
        parsed_metrics(a + seq!['\n'] + b) == parsed_metrics(a).union_prefer_right(
            parsed_metrics(b),
        ),
{
    let t = a + seq!['\n'] + b;
    let n = a.len() as int;
    lemma_scan_lines_joined(a, b, b.len() as int);
    lemma_scan_lines_start(b, b.len() as int);
    let (done, start) = scan_lines(b, b.len() as int);
    assert(t.len() == n + 1 + b.len());
    assert(t.subrange(n + 1 + start, t.len() as int) =~= b.subrange(start, b.len() as int));
    assert(lines_of(t) =~= lines_of(a) + lines_of(b));
    lemma_metrics_of_joined_lines(lines_of(a), lines_of(b));
}

/// Whether line `l` records a value under the name `k`: it is not a comment,
/// its second word is a number, and `k` is its first word or, when that word
/// carries labels, the part before the `{`.
pub open spec fn line_records(l: Seq<char>, k: Seq<char>) -> bool {
    let ws = words(l);
    &&& !(l.len() > 0 && l[0] == '#')
    &&& ws.len() >= 2
    &&& float_syntax(ws[1])
    &&& (ws[0] == k || (find_char(ws[0], '{', 0) matches Some(idx) && ws[0].take(idx) == k))
}

/// The value a line records: its second word.
pub open spec fn line_value(l: Seq<char>) -> Seq<char> {
    words(l)[1]
}

proof fn lemma_line_samples_records(l: Seq<char>, k: Seq<char>)
    ensures
        line_records(l, k) <==> exists|i: int|
            0 <= i < line_samples(l).len() && (#[trigger] line_samples(l)[i]).0 == k,
        forall|i: int| 0 <= i < line_samples(l).len() ==> (#[trigger] line_samples(l)[i]).1 == line_value(l),
{
    let ss = line_samples(l);
    if line_records(l, k) {
        let ws = words(l);
        if ws[0] == k {
            assert(ss[ss.len() - 1].0 == k);
        } else {
            assert(ss[0].0 == k);
        }
    }
}

proof fn lemma_record_all_uniform(
    m: Map<Seq<char>, Seq<char>>,
    ss: Seq<(Seq<char>, Seq<char>)>,
    v: Seq<char>,
    k: Seq<char>,
)
    requires
        forall|i: int| 0 <= i < ss.len() ==> (#[trigger] ss[i]).1 == v,
    ensures
        (exists|i: int| 0 <= i < ss.len() && (#[trigger] ss[i]).0 == k) ==> record_all(
            m,
            ss,
        ).contains_key(k) && record_all(m, ss)[k] == v,
        !(exists|i: int| 0 <= i < ss.len() && (#[trigger] ss[i]).0 == k) ==> record_all(
            m,
            ss,
        ).contains_key(k) == m.contains_key(k) && record_all(m, ss)[k] == m[k],
    decreases ss.len(),
{
    if ss.len() > 0 {
        let rest = ss.drop_last();
        assert forall|i: int| 0 <= i < rest.len() implies (#[trigger] rest[i]).1 == v by {
            assert(rest[i] == ss[i]);
        }
        lemma_record_all_uniform(m, rest, v, k);
        assert(ss[ss.len() - 1].1 == v);
        if ss.last().0 != k {
            if exists|i: int| 0 <= i < ss.len() && (#[trigger] ss[i]).0 == k {
                let i = choose|i: int| 0 <= i < ss.len() && (#[trigger] ss[i]).0 == k;
                assert(rest[i].0 == k);
            }
            if exists|i: int| 0 <= i < rest.len() && (#[trigger] rest[i]).0 == k {
                let i = choose|i: int| 0 <= i < rest.len() && (#[trigger] rest[i]).0 == k;
                assert(ss[i].0 == k);
            }
        } else {
            assert(ss[ss.len() - 1].0 == k);
        }
    }
}

proof fn lemma_lines_last_wins(lines: Seq<Seq<char>>, k: Seq<char>)
    ensures
        metrics_of_lines(lines).contains_key(k) <==> exists|i: int|
            0 <= i < lines.len() && line_records(#[trigger] lines[i], k),
        forall|i: int|
            0 <= i < lines.len() && line_records(#[trigger] lines[i], k) && (forall|j: int|
                i < j < lines.len() ==> !line_records(#[trigger] lines[j], k)) ==> metrics_of_lines(
                lines,
            )[k] == line_value(lines[i]),
    decreases lines.len(),
{
    if lines.len() > 0 {
        let rest = lines.drop_last();
        let l = lines.last();
        lemma_lines_last_wins(rest, k);
        lemma_line_samples_records(l, k);
        lemma_record_all_uniform(metrics_of_lines(rest), line_samples(l), line_value(l), k);
        let n = lines.len() - 1;
        assert(lines[n] == l);
        if line_records(l, k) {
            assert(line_records(lines[n], k));
            assert forall|i: int|
                0 <= i < lines.len() && line_records(#[trigger] lines[i], k) && (forall|j: int|
                    i < j < lines.len() ==> !line_records(#[trigger] lines[j], k)) implies metrics_of_lines(
                lines,
            )[k] == line_value(lines[i]) by {
                if i < n {
                    assert(!line_records(lines[n], k));
                }
            }
        } else {
            if exists|i: int| 0 <= i < lines.len() && line_records(#[trigger] lines[i], k) {
                let i = choose|i: int| 0 <= i < lines.len() && line_records(#[trigger] lines[i], k);
                assert(i < n);
                assert(rest[i] == lines[i]);
            }
            if exists|i: int| 0 <= i < rest.len() && line_records(#[trigger] rest[i], k) {
                let i = choose|i: int| 0 <= i < rest.len() && line_records(#[trigger] rest[i], k);
                assert(lines[i] == rest[i]);
            }
            assert forall|i: int|
                0 <= i < lines.len() && line_records(#[trigger] lines[i], k) && (forall|j: int|
                    i < j < lines.len() ==> !line_records(#[trigger] lines[j], k)) implies metrics_of_lines(
                lines,
            )[k] == line_value(lines[i]) by {
                assert(i < n);
                assert(rest[i] == lines[i]);
                assert forall|j: int| i < j < rest.len() implies !line_records(#[trigger] rest[j], k) by {
                    assert(rest[j] == lines[j]);
                }
            }
        }
    }
}

/// Law: a name is in the parsed table exactly when some line of the text
/// records it, and its value is the one the last such line records. No
/// other names are in the table.
pub proof fn law_last_line_wins(text: Seq<char>, k: Seq<char>)
    ensures
        parsed_metrics(text).contains_key(k) <==> exists|i: int|
            0 <= i < lines_of(text).len() && line_records(#[trigger] lines_of(text)[i], k),
        forall|i: int|
            0 <= i < lines_of(text).len() && line_records(#[trigger] lines_of(text)[i], k) && (forall|
                j: int,
            | i < j < lines_of(text).len() ==> !line_records(#[trigger] lines_of(text)[j], k))
                ==> parsed_metrics(text)[k] == line_value(lines_of(text)[i]),
{
    lemma_lines_last_wins(lines_of(text), k);
}

/// A character of a Prometheus metric name: an ASCII letter or digit, `_`
/// or `:`.
pub open spec fn metric_name_char(c: char) -> bool {
    ('a' <= c <= 'z') || ('A' <= c <= 'Z') || ('0' <= c <= '9') || c == '_' || c == ':'
}

proof fn lemma_scan_first_word(line: Seq<char>, n: int, i: int)
    requires
        0 < i <= n <= line.len(),
        forall|j: int| 0 <= j < n ==> !is_white_space(#[trigger] line[j]),
    ensures
        scan_words(line, i) == (Seq::<(int, int)>::empty(), Some(0int)),
    decreases i,
{
    assert(!is_white_space(line[i - 1]));
    if i > 1 {
        lemma_scan_first_word(line, n, i - 1);
    } else {
        assert(scan_words(line, 0) == (Seq::<(int, int)>::empty(), Option::<int>::None));
    }
}

proof fn lemma_scan_second_word(line: Seq<char>, n: int, i: int)
    requires
        0 < n,
        n + 1 < i <= line.len(),
        forall|j: int| n < j < line.len() ==> !is_white_space(#[trigger] line[j]),
        scan_words(line, n + 1) == (seq![(0int, n)], Option::<int>::None),
    ensures
        scan_words(line, i) == (seq![(0int, n)], Some(n + 1)),
    decreases i,
{
    if i > n + 2 {
        lemma_scan_second_word(line, n, i - 1);
    }
}

/// Law: a scrape made of the single line `name value`, where the name is a
/// nonempty Prometheus metric name and the value a floating point literal
/// without white space, records exactly that value under that name.
pub proof fn law_single_sample(name: Seq<char>, v: Seq<char>)
    requires
        name.len() > 0,
        forall|j: int| 0 <= j < name.len() ==> metric_name_char(#[trigger] name[j]),
        v.len() > 0,
        forall|j: int| 0 <= j < v.len() ==> !is_white_space(#[trigger] v[j]),
        float_syntax(v),
    ensures
        parsed_metrics(name + seq![' '] + v) == Map::<Seq<char>, Seq<char>>::empty().insert(name, v),
{
    let line = name + seq![' '] + v;
    let n = name.len() as int;
    assert forall|j: int| 0 <= j < n implies !is_white_space(#[trigger] line[j]) by {
        assert(line[j] == name[j]);
        assert(metric_name_char(name[j]));
    }
    assert forall|j: int| n < j < line.len() implies !is_white_space(#[trigger] line[j]) by {
        assert(line[j] == v[j - n - 1]);
    }
    lemma_scan_first_word(line, n, n);
    assert(line[n] == ' ');
    assert(scan_words(line, n + 1) == (seq![(0int, n)], Option::<int>::None));
    if line.len() > n + 1 {
        lemma_scan_second_word(line, n, line.len() as int);
    }
    assert(scan_words(line, line.len() as int) == (seq![(0int, n)], Some(n + 1)));
    let spans = word_spans(line);
    assert(spans =~= seq![(0int, n), (n + 1, line.len() as int)]);
    let ws = words(line);
    assert(ws.len() == 2);
    assert(ws[0] =~= name);
    assert(ws[1] =~= v);
    assert forall|j: int| 0 <= j < name.len() implies name[j] != '{' by {
        assert(metric_name_char(name[j]));
    }
    crate::number::lemma_find_char_none(name, '{', 0);
    assert(line[0] == name[0]);
    assert(metric_name_char(name[0]));
    let samples = line_samples(line);
    assert(samples =~= seq![(name, v)]);
    assert(forall|j: int| 0 <= j < line.len() ==> line[j] != '\n');
    lemma_scan_lines_no_newline(line, 0, line.len() as int);
    assert(line.subrange(0, line.len() as int) =~= line);
    let lines = lines_of(line);
    assert(lines =~= seq![line]);
    assert(lines.drop_last() =~= Seq::<Seq<char>>::empty());
    assert(samples.drop_last() =~= Seq::<(Seq<char>, Seq<char>)>::empty());
    assert(lines.last() == line);
    assert(metrics_of_lines(lines.drop_last()) == Map::<Seq<char>, Seq<char>>::empty());
    assert(record_all(Map::empty(), samples) == record_all(Map::empty(), samples.drop_last()).insert(
        name,
        v,
    ));
    assert(parsed_metrics(line) == record_all(Map::empty(), samples));
}

/// Law: a line `name digits` records the digits under the name, for any
/// nonempty run of ASCII digits of any length.
pub proof fn law_integer_sample(name: Seq<char>, d: Seq<char>)
    requires
        name.len() > 0,
        forall|j: int| 0 <= j < name.len() ==> metric_name_char(#[trigger] name[j]),
        d.len() > 0,
        ascii_digits(d),
    ensures
        parsed_metrics(name + seq![' '] + d) == Map::<Seq<char>, Seq<char>>::empty().insert(name, d),
{
    law_integers_are_numbers(d);
    assert forall|j: int| 0 <= j < d.len() implies !is_white_space(#[trigger] d[j]) by {
        assert('0' <= d[j] <= '9');
    }
    law_single_sample(name, d);
}

} // verus!
