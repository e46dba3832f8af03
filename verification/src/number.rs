//! The syntax of decimal floating point literals that `str::parse` accepts
//! for the standard floating point types, as the standard library documents
//! it:
//!
//! ```text
//! Float  ::= Sign? ( 'inf' | 'infinity' | 'nan' | Number )
//! Number ::= ( Digit+ | Digit+ '.' Digit* | Digit* '.' Digit+ ) Exp?
//! Exp    ::= 'e' Sign? Digit+
//! Sign   ::= [+-]
//! Digit  ::= [0-9]
//! ```
//!
//! Letters match in either case; no white space is allowed.

use vstd::prelude::*;

verus! {

pub open spec fn is_digit(c: char) -> bool {
    '0' <= c <= '9'
}

pub open spec fn is_sign(c: char) -> bool {
    c == '+' || c == '-'
}

pub open spec fn all_digits(s: Seq<char>) -> bool {
    forall|i: int| 0 <= i < s.len() ==> is_digit(#[trigger] s[i])
}

/// `c` is `small` or the capital letter of the ASCII small letter `small`.
pub open spec fn same_letter(c: char, small: char) -> bool {
    c == small || (c as u32) + 32 == small as u32
}

/// `s` spells the ASCII small-letter word `word`, letters in either case.
pub open spec fn spells(s: Seq<char>, word: Seq<char>) -> bool {
    s.len() == word.len() && forall|i: int| 0 <= i < s.len() ==> same_letter(#[trigger] s[i], word[i])
}

/// `inf`, `infinity` or `nan`, in any case.
pub open spec fn special_value(s: Seq<char>) -> bool {
    ||| spells(s, seq!['i', 'n', 'f'])
    ||| spells(s, seq!['i', 'n', 'f', 'i', 'n', 'i', 't', 'y'])
    ||| spells(s, seq!['n', 'a', 'n'])
}

/// The first position at or after `from` where `c` occurs in `s`.
pub open spec fn find_char(s: Seq<char>, c: char, from: int) -> Option<int>
    decreases s.len() - from,
{
    if from < 0 || from >= s.len() {
        None
    } else if s[from] == c {
        Some(from)
    } else {
        find_char(s, c, from + 1)
    }
}

/// The first position at or after `from` of an `e` or `E` in `s`.
pub open spec fn find_exponent_mark(s: Seq<char>, from: int) -> Option<int>
    decreases s.len() - from,
{
    if from < 0 || from >= s.len() {
        None
    } else if s[from] == 'e' || s[from] == 'E' {
        Some(from)
    } else {
        find_exponent_mark(s, from + 1)
    }
}

/// `Digit+ | Digit+ '.' Digit* | Digit* '.' Digit+`
pub open spec fn mantissa_syntax(m: Seq<char>) -> bool {
    match find_char(m, '.', 0) {
        Some(d) => m.len() >= 2 && all_digits(m.take(d)) && all_digits(m.skip(d + 1)),
        None => m.len() > 0 && all_digits(m),
    }
}

/// `Sign? Digit+`, the part of an exponent after the `e`.
pub open spec fn exponent_syntax(x: Seq<char>) -> bool {
    if x.len() > 0 && is_sign(x[0]) {
        x.len() > 1 && all_digits(x.skip(1))
    } else {
        x.len() > 0 && all_digits(x)
    }
}

/// `Number`
pub open spec fn number_syntax(s: Seq<char>) -> bool {
    match find_exponent_mark(s, 0) {
        Some(k) => mantissa_syntax(s.take(k)) && exponent_syntax(s.skip(k + 1)),
        None => mantissa_syntax(s),
    }
}

/// `Float`: the texts that parse as a floating point number.
pub open spec fn float_syntax(s: Seq<char>) -> bool {
    let body = if s.len() > 0 && is_sign(s[0]) {
        s.skip(1)
    } else {
        s
    };
    special_value(body) || number_syntax(body)
}

fn digit(c: char) -> (b: bool)
    ensures
        b == is_digit(c),
{
    '0' <= c && c <= '9'
}

/// Whether `cs[from..to]` is all digits.
fn digits_between(cs: &Vec<char>, from: usize, to: usize) -> (b: bool)
    requires
        from <= to <= cs.len(),
    ensures
        b == all_digits(cs@.subrange(from as int, to as int)),
{
    let mut i = from;
    while i < to
        invariant
            from <= i <= to <= cs.len(),
            forall|j: int| from <= j < i ==> is_digit(cs@[j]),
        decreases to - i,
    {
        if !digit(cs[i]) {
            assert(!is_digit(cs@.subrange(from as int, to as int)[i - from]));
            return false;
        }
        i += 1;
    }
    assert forall|j: int| 0 <= j < to - from implies is_digit(
        #[trigger] cs@.subrange(from as int, to as int)[j],
    ) by {
        assert(cs@.subrange(from as int, to as int)[j] == cs@[from + j]);
    }
    true
}

fn same_letter_as(c: char, small: char) -> (b: bool)
    requires
        small as u32 >= 0x61,
    ensures
        b == same_letter(c, small),
{
    c == small || (c as u32) + 32 == small as u32
}

/// The characters `cs[from..to]`.
pub fn chars_between(cs: &Vec<char>, from: usize, to: usize) -> (v: Vec<char>)
    requires
        from <= to <= cs.len(),
    ensures
        v@ == cs@.subrange(from as int, to as int),
{
    let mut v: Vec<char> = Vec::new();
    let mut i = from;
    while i < to
        invariant
            from <= i <= to <= cs.len(),
            v@ == cs@.subrange(from as int, i as int),
        decreases to - i,
    {
        v.push(cs[i]);
        i += 1;
        assert(v@ =~= cs@.subrange(from as int, i as int));
    }
    v
}

/// The first position of `c` in `cs`.
pub fn position_of(cs: &Vec<char>, c: char) -> (r: Option<usize>)
    ensures
        match r {
            Some(i) => find_char(cs@, c, 0) == Some(i as int),
            None => find_char(cs@, c, 0) is None,
        },
{
    let mut i: usize = 0;
    while i < cs.len()
        invariant
            0 <= i <= cs.len(),
            find_char(cs@, c, 0) == find_char(cs@, c, i as int),
        decreases cs.len() - i,
    {
        if cs[i] == c {
            return Some(i);
        }
        i += 1;
    }
    None
}

fn exponent_position(cs: &Vec<char>) -> (r: Option<usize>)
    ensures
        match r {
            Some(i) => find_exponent_mark(cs@, 0) == Some(i as int),
            None => find_exponent_mark(cs@, 0) is None,
        },
{
    let mut i: usize = 0;
    while i < cs.len()
        invariant
            0 <= i <= cs.len(),
            find_exponent_mark(cs@, 0) == find_exponent_mark(cs@, i as int),
        decreases cs.len() - i,
    {
        if cs[i] == 'e' || cs[i] == 'E' {
            return Some(i);
        }
        i += 1;
    }
    None
}

pub(crate) proof fn lemma_find_char_bounds(s: Seq<char>, c: char, from: int)
    ensures
        find_char(s, c, from) matches Some(i) ==> from <= i < s.len() && s[i] == c,
    decreases s.len() - from,
{
    if 0 <= from < s.len() && s[from] != c {
        lemma_find_char_bounds(s, c, from + 1);
    }
}

proof fn lemma_find_exponent_mark_bounds(s: Seq<char>, from: int)
    ensures
        find_exponent_mark(s, from) matches Some(i) ==> from <= i < s.len(),
    decreases s.len() - from,
{
    if 0 <= from < s.len() && s[from] != 'e' && s[from] != 'E' {
        lemma_find_exponent_mark_bounds(s, from + 1);
    }
}

fn spells_word(s: &Vec<char>, word: &Vec<char>) -> (b: bool)
    requires
        forall|i: int| 0 <= i < word.len() ==> #[trigger] word@[i] as u32 >= 0x61,
    ensures
        b == spells(s@, word@),
{
    if s.len() != word.len() {
        return false;
    }
    let mut i: usize = 0;
    while i < s.len()
        invariant
            s.len() == word.len(),
            0 <= i <= s.len(),
            forall|i: int| 0 <= i < word.len() ==> #[trigger] word@[i] as u32 >= 0x61,
            forall|j: int| 0 <= j < i ==> same_letter(#[trigger] s@[j], word@[j]),
        decreases s.len() - i,
    {
        if !same_letter_as(s[i], word[i]) {
            return false;
        }
        i += 1;
    }
    true
}

fn special_value_text(s: &Vec<char>) -> (b: bool)
    ensures
        b == special_value(s@),
{
    let inf = vec!['i', 'n', 'f'];
    let infinity = vec!['i', 'n', 'f', 'i', 'n', 'i', 't', 'y'];
    let nan = vec!['n', 'a', 'n'];
    assert(inf@ =~= seq!['i', 'n', 'f']);
    assert(infinity@ =~= seq!['i', 'n', 'f', 'i', 'n', 'i', 't', 'y']);
    assert(nan@ =~= seq!['n', 'a', 'n']);
    spells_word(s, &inf) || spells_word(s, &infinity) || spells_word(s, &nan)
}

fn mantissa_text(m: &Vec<char>) -> (b: bool)
    ensures
        b == mantissa_syntax(m@),
{
    proof {
        lemma_find_char_bounds(m@, '.', 0);
    }
    match position_of(m, '.') {
        Some(d) => {
            assert(m@.take(d as int) =~= m@.subrange(0, d as int));
            assert(m@.skip(d + 1) =~= m@.subrange(d + 1, m@.len() as int));
            m.len() >= 2 && digits_between(m, 0, d) && digits_between(m, d + 1, m.len())
        },
        None => {
            assert(m@ =~= m@.subrange(0, m@.len() as int));
            m.len() > 0 && digits_between(m, 0, m.len())
        },
    }
}

fn exponent_text(x: &Vec<char>) -> (b: bool)
    ensures
        b == exponent_syntax(x@),
{
    if x.len() > 0 && (x[0] == '+' || x[0] == '-') {
        assert(x@.skip(1) =~= x@.subrange(1, x@.len() as int));
        x.len() > 1 && digits_between(x, 1, x.len())
    } else {
        assert(x@ =~= x@.subrange(0, x@.len() as int));
        x.len() > 0 && digits_between(x, 0, x.len())
    }
}

fn number_text(s: &Vec<char>) -> (b: bool)
    ensures
        b == number_syntax(s@),
{
    proof {
        lemma_find_exponent_mark_bounds(s@, 0);
    }
    match exponent_position(s) {
        Some(k) => {
            assert(find_exponent_mark(s@, 0) == Some(k as int));
            assert(k < s.len());
            let m = chars_between(s, 0, k);
            let x = chars_between(s, k + 1, s.len());
            assert(m@ =~= s@.take(k as int));
            assert(x@ =~= s@.skip(k + 1));
            mantissa_text(&m) && exponent_text(&x)
        },
        None => mantissa_text(s),
    }
}

/// Whether `cs` is a floating point literal that `str::parse` accepts.
pub fn float_text(cs: &Vec<char>) -> (b: bool)
    ensures
        b == float_syntax(cs@),
{
    let body = if cs.len() > 0 && (cs[0] == '+' || cs[0] == '-') {
        let v = chars_between(cs, 1, cs.len());
        assert(v@ =~= cs@.skip(1));
        v
    } else {
        let v = chars_between(cs, 0, cs.len());
        assert(v@ =~= cs@);
        v
    };
    special_value_text(&body) || number_text(&body)
}

pub(crate) proof fn lemma_find_char_none(s: Seq<char>, c: char, from: int)
    requires
        0 <= from,
        forall|j: int| from <= j < s.len() ==> s[j] != c,
    ensures
        find_char(s, c, from) is None,
    decreases s.len() - from,
{
    if from < s.len() {
        lemma_find_char_none(s, c, from + 1);
    }
}

proof fn lemma_find_char_at(s: Seq<char>, c: char, from: int, k: int)
    requires
        0 <= from <= k < s.len(),
        s[k] == c,
        forall|j: int| from <= j < k ==> s[j] != c,
    ensures
        find_char(s, c, from) == Some(k),
    decreases k - from,
{
    if from < k {
        lemma_find_char_at(s, c, from + 1, k);
    }
}

proof fn lemma_no_exponent_mark(s: Seq<char>, from: int)
    requires
        0 <= from,
        forall|j: int| from <= j < s.len() ==> s[j] != 'e' && s[j] != 'E',
    ensures
        find_exponent_mark(s, from) is None,
    decreases s.len() - from,
{
    if from < s.len() {
        lemma_no_exponent_mark(s, from + 1);
    }
}

proof fn lemma_exponent_mark_at(s: Seq<char>, from: int, k: int)
    requires
        0 <= from <= k < s.len(),
        s[k] == 'e' || s[k] == 'E',
        forall|j: int| from <= j < k ==> s[j] != 'e' && s[j] != 'E',
    ensures
        find_exponent_mark(s, from) == Some(k),
    decreases k - from,
{
    if from < k {
        lemma_exponent_mark_at(s, from + 1, k);
    }
}

/// `s` is made of ASCII digits only.
pub open spec fn ascii_digits(s: Seq<char>) -> bool {
    forall|i: int| 0 <= i < s.len() ==> '0' <= #[trigger] s[i] <= '9'
}

proof fn lemma_digits_mantissa(d: Seq<char>)
    requires
        d.len() > 0,
        ascii_digits(d),
    ensures
        mantissa_syntax(d),
        number_syntax(d),
{
    lemma_find_char_none(d, '.', 0);
    lemma_no_exponent_mark(d, 0);
}

/// Law: every nonempty string of ASCII digits, of any length, is a number,
/// with or without a leading `+` or `-`.
pub proof fn law_integers_are_numbers(d: Seq<char>)
    requires
        d.len() > 0,
        ascii_digits(d),
    ensures
        float_syntax(d),
        float_syntax(seq!['+'] + d),
        float_syntax(seq!['-'] + d),
{
    lemma_digits_mantissa(d);
    assert((seq!['+'] + d).skip(1) =~= d);
    assert((seq!['-'] + d).skip(1) =~= d);
}

/// Law: digits with a decimal point are a number when there is at least one
/// digit on either side (`1.5`, `1.`, `.5`), with or without a sign.
pub proof fn law_decimals_are_numbers(a: Seq<char>, b: Seq<char>)
    requires
        a.len() + b.len() > 0,
        ascii_digits(a),
        ascii_digits(b),
    ensures
        float_syntax(a + seq!['.'] + b),
        float_syntax(seq!['-'] + a + seq!['.'] + b),
{
    let m = a + seq!['.'] + b;
    assert forall|j: int| 0 <= j < m.len() implies m[j] != 'e' && m[j] != 'E' by {
        if j < a.len() {
            assert(m[j] == a[j]);
        } else if j > a.len() {
            assert(m[j] == b[j - a.len() - 1]);
        }
    }
    lemma_no_exponent_mark(m, 0);
    assert forall|j: int| 0 <= j < a.len() implies m[j] != '.' by {
        assert(m[j] == a[j]);
    }
    lemma_find_char_at(m, '.', 0, a.len() as int);
    assert(m.take(a.len() as int) =~= a);
    assert(m.skip(a.len() as int + 1) =~= b);
    assert((seq!['-'] + a + seq!['.'] + b).skip(1) =~= m);
}

/// Law: digits followed by an exponent (`e` or `E`, an optional sign and
/// digits) are a number, such as `1e10`, `2E-3` or `5e+7`.
pub proof fn law_exponents_are_numbers(a: Seq<char>, mark: char, x: Seq<char>)
    requires
        a.len() > 0,
        ascii_digits(a),
        mark == 'e' || mark == 'E',
        x.len() > 0,
        ascii_digits(x),
    ensures
        float_syntax(a + seq![mark] + x),
        float_syntax(a + seq![mark, '-'] + x),
        float_syntax(a + seq![mark, '+'] + x),
{
    lemma_digits_mantissa(a);
    let n = a.len() as int;
    let s1 = a + seq![mark] + x;
    let s2 = a + seq![mark, '-'] + x;
    let s3 = a + seq![mark, '+'] + x;
    assert forall|j: int| 0 <= j < n implies s1[j] != 'e' && s1[j] != 'E' && s2[j] != 'e' && s2[j]
        != 'E' && s3[j] != 'e' && s3[j] != 'E' by {
        assert(s1[j] == a[j] && s2[j] == a[j] && s3[j] == a[j]);
    }
    lemma_exponent_mark_at(s1, 0, n);
    lemma_exponent_mark_at(s2, 0, n);
    lemma_exponent_mark_at(s3, 0, n);
    assert(s1.take(n) =~= a && s2.take(n) =~= a && s3.take(n) =~= a);
    assert(s1.skip(n + 1) =~= x);
    assert(s2.skip(n + 1) =~= seq!['-'] + x);
    assert(s3.skip(n + 1) =~= seq!['+'] + x);
    assert((seq!['-'] + x).skip(1) =~= x);
    assert((seq!['+'] + x).skip(1) =~= x);
    assert(s1[0] == a[0] && s2[0] == a[0] && s3[0] == a[0]);
}

/// Law: the empty text, a lone sign, a lone point and a number whose
/// exponent has no digits are not numbers.
pub proof fn law_non_numbers()
    ensures
        !float_syntax(Seq::<char>::empty()),
        !float_syntax(seq!['+']),
        !float_syntax(seq!['.']),
        !float_syntax(seq!['1', 'e']),
{
    lemma_find_char_at(seq!['.'], '.', 0, 0);
    lemma_no_exponent_mark(seq!['.'], 0);
    lemma_no_exponent_mark(Seq::<char>::empty(), 0);
    lemma_find_char_none(Seq::<char>::empty(), '.', 0);
    assert(seq!['+'].skip(1) =~= Seq::<char>::empty());
    lemma_exponent_mark_at(seq!['1', 'e'], 0, 1);
    assert(seq!['1', 'e'].skip(2) =~= Seq::<char>::empty());
}

} // verus!
