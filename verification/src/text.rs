//! Text built and searched character by character, with contracts over
//! sequences of characters.

use vstd::prelude::*;
use vstd::string::*;

verus! {

// ---------------------------------------------------------------------------
// Numbers
// ---------------------------------------------------------------------------

/// The decimal digit that stands for `d`.
pub open spec fn digit(d: nat) -> char {
    (48 + d) as char
}

/// `n` written in decimal, without leading zeros.
pub open spec fn decimal(n: nat) -> Seq<char>
    decreases n,
{
    if n < 10 {
        seq![digit(n)]
    } else {
        decimal(n / 10).push(digit(n % 10))
    }
}

/// `n` written in decimal, with a leading minus sign when it is negative.
pub open spec fn signed_decimal(n: int) -> Seq<char> {
    if n < 0 {
        seq!['-'] + decimal((-n) as nat)
    } else {
        decimal(n as nat)
    }
}

fn digit_char(d: u8) -> (c: char)
    requires
        d < 10,
    ensures
        c == digit(d as nat),
{
    (48u8 + d) as char
}

/// Append `n` in decimal.
pub fn push_decimal(buf: &mut String, n: u128)
    ensures
        final(buf)@ == old(buf)@ + decimal(n as nat),
    decreases n,
{
    if n >= 10 {
        push_decimal(buf, n / 10);
    }
    buf.push(digit_char((n % 10) as u8));
}

/// `n` in decimal.
pub fn decimal_text(n: u128) -> (r: String)
    ensures
        r@ == decimal(n as nat),
{
    let mut r = String::new();
    push_decimal(&mut r, n);
    r
}

/// `n` in decimal, signed.
pub fn signed_decimal_text(n: i128) -> (r: String)
    ensures
        r@ == signed_decimal(n as int),
{
    let mut r = String::new();
    if n < 0 {
        r.push('-');
        let less_one: u128 = (-(n + 1)) as u128;
        push_decimal(&mut r, less_one + 1);
    } else {
        push_decimal(&mut r, n as u128);
    }
    r
}

/// A number other than zero never starts with the digit zero, so its decimal
/// form is never `0`.
pub proof fn nonzero_decimal_has_no_leading_zero(n: nat)
    requires
        n > 0,
    ensures
        decimal(n).len() > 0,
        decimal(n)[0] != '0',
    decreases n,
{
    if n >= 10 {
        nonzero_decimal_has_no_leading_zero(n / 10);
    }
}

/// No two numbers have the same decimal form.
pub proof fn decimal_is_injective(a: nat, b: nat)
    requires
        decimal(a) == decimal(b),
    ensures
        a == b,
    decreases a,
{
    decimal_starts_with_a_digit(a / 10);
    decimal_starts_with_a_digit(b / 10);
    if a >= 10 && b >= 10 {
        assert(decimal(a).drop_last() =~= decimal(a / 10));
        assert(decimal(b).drop_last() =~= decimal(b / 10));
        assert(decimal(a).last() == digit(a % 10));
        assert(decimal(b).last() == digit(b % 10));
        decimal_is_injective(a / 10, b / 10);
    } else if a < 10 && b < 10 {
        assert(decimal(a)[0] == digit(a));
        assert(decimal(b)[0] == digit(b));
        assert(digit(a) as int == 48 + a);
        assert(digit(b) as int == 48 + b);
    } else {
        assert(a >= 10 ==> decimal(a).len() == decimal(a / 10).len() + 1);
        assert(b >= 10 ==> decimal(b).len() == decimal(b / 10).len() + 1);
    }
}

/// A number in decimal starts with a digit.
pub proof fn decimal_starts_with_a_digit(n: nat)
    ensures
        decimal(n).len() > 0,
        '0' <= decimal(n)[0] <= '9',
    decreases n,
{
    if n >= 10 {
        decimal_starts_with_a_digit(n / 10);
    }
}

/// No two whole numbers have the same decimal form.
pub proof fn signed_decimal_is_injective(a: int, b: int)
    requires
        signed_decimal(a) == signed_decimal(b),
    ensures
        a == b,
{
    if a < 0 && b < 0 {
        let x = decimal((-a) as nat);
        let y = decimal((-b) as nat);
        assert((seq!['-'] + x).drop_first() =~= x);
        assert((seq!['-'] + y).drop_first() =~= y);
        decimal_is_injective((-a) as nat, (-b) as nat);
    } else if a >= 0 && b >= 0 {
        decimal_is_injective(a as nat, b as nat);
    } else {
        if a >= 0 {
            decimal_starts_with_a_digit(a as nat);
        }
        if b >= 0 {
            decimal_starts_with_a_digit(b as nat);
        }
        assert(signed_decimal(a)[0] == signed_decimal(b)[0]);
    }
}

// ---------------------------------------------------------------------------
// Characters of a text
// ---------------------------------------------------------------------------

/// The characters of `s`, in order.
pub fn characters(s: &str) -> (r: Vec<char>)
    ensures
        r@ == s@,
{
    let mut r: Vec<char> = Vec::new();
    for c in it: s.chars()
        invariant
            r@ == s@.take(it.index()),
            it.seq() == s@,
    {
        r.push(c);
        assert(s@.take(it.index() + 1) =~= s@.take(it.index()).push(c));
    }
    assert(s@.take(s@.len() as int) =~= s@);
    r
}

// ---------------------------------------------------------------------------
// Joining
// ---------------------------------------------------------------------------

/// The texts of a list of strings.
pub open spec fn texts(v: Seq<String>) -> Seq<Seq<char>> {
    Seq::new(v.len(), |i: int| v[i]@)
}

/// Append one string.
pub fn push_text(v: &mut Vec<String>, s: String)
    ensures
        texts(final(v)@) == texts(old(v)@).push(s@),
{
    let ghost before = texts(v@);
    v.push(s);
    assert(texts(v@) =~= before.push(s@));
}

/// The parts one after another, with the separator between neighbours.
pub open spec fn join(parts: Seq<Seq<char>>, separator: Seq<char>) -> Seq<char>
    decreases parts.len(),
{
    if parts.len() == 0 {
        seq![]
    } else if parts.len() == 1 {
        parts[0]
    } else {
        join(parts.drop_last(), separator) + separator + parts.last()
    }
}

/// Join the parts with the separator between neighbours.
pub fn join_text(parts: &Vec<String>, separator: &str) -> (r: String)
    ensures
        r@ == join(texts(parts@), separator@),
{
    let mut r = String::new();
    let ghost all = texts(parts@);
    let mut i: usize = 0;
    while i < parts.len()
        invariant
            i <= parts.len(),
            all == texts(parts@),
            r@ == join(all.take(i as int), separator@),
        decreases parts.len() - i,
    {
        if i > 0 {
            r.append(separator);
        }
        r.append(parts[i].as_str());
        assert(all.take(i + 1).drop_last() =~= all.take(i as int));
        assert(i == 0 ==> r@ =~= all.take(i + 1)[0]);
        i = i + 1;
    }
    assert(all.take(all.len() as int) =~= all);
    r
}

// ---------------------------------------------------------------------------
// Searching
// ---------------------------------------------------------------------------

/// `needle` stands in `haystack` at position `i`.
pub open spec fn occurs_at(haystack: Seq<char>, needle: Seq<char>, i: int) -> bool {
    &&& 0 <= i <= haystack.len() - needle.len()
    &&& haystack.subrange(i, i + needle.len()) == needle
}

/// `needle` stands somewhere in `haystack`.
pub open spec fn contains_text(haystack: Seq<char>, needle: Seq<char>) -> bool {
    exists|i: int| occurs_at(haystack, needle, i)
}

fn occurs_here(haystack: &Vec<char>, needle: &Vec<char>, at: usize) -> (r: bool)
    requires
        at + needle.len() <= haystack.len(),
    ensures
        r == occurs_at(haystack@, needle@, at as int),
{
    let mut i: usize = 0;
    while i < needle.len()
        invariant
            i <= needle.len(),
            at + needle.len() <= haystack.len(),
            forall|j: int| 0 <= j < i ==> haystack@[at + j] == #[trigger] needle@[j],
        decreases needle.len() - i,
    {
        if haystack[at + i] != needle[i] {
            assert(haystack@.subrange(at as int, at + needle@.len())[i as int] != needle@[i as int]);
            return false;
        }
        i = i + 1;
    }
    assert(haystack@.subrange(at as int, at + needle@.len()) =~= needle@);
    true
}

/// Whether `needle` stands somewhere in `haystack`.
pub fn holds_text(haystack: &str, needle: &str) -> (r: bool)
    ensures
        r == contains_text(haystack@, needle@),
{
    let h = characters(haystack);
    let n = characters(needle);
    if n.len() > h.len() {
        return false;
    }
    let last: usize = h.len() - n.len();
    let mut i: usize = 0;
    while i <= last
        invariant
            i <= last + 1,
            last == h.len() - n.len(),
            h@ == haystack@,
            n@ == needle@,
            forall|j: int| 0 <= j < i ==> !occurs_at(haystack@, needle@, j),
        decreases last + 1 - i,
    {
        if occurs_here(&h, &n, i) {
            return true;
        }
        if i == last {
            return false;
        }
        i = i + 1;
    }
    false
}

/// Whether the two texts hold the same characters.
pub fn same_text(a: &str, b: &str) -> (r: bool)
    ensures
        r == (a@ == b@),
{
    a.to_owned() == b.to_owned()
}

// ---------------------------------------------------------------------------
// Order
// ---------------------------------------------------------------------------

/// `a` and `b` agree before position `i`, and there `a` ends or has the
/// smaller character.
pub open spec fn precedes_at(a: Seq<char>, b: Seq<char>, i: int) -> bool {
    &&& 0 <= i <= a.len()
    &&& i < b.len()
    &&& forall|j: int| 0 <= j < i ==> #[trigger] a[j] == b[j]
    &&& i == a.len() || a[i] < b[i]
}

/// `a` comes strictly before `b` in dictionary order by code point.
pub open spec fn precedes(a: Seq<char>, b: Seq<char>) -> bool {
    exists|i: int| precedes_at(a, b, i)
}

/// Whether `a` comes strictly before `b` in dictionary order.
pub fn comes_before(a: &str, b: &str) -> (r: bool)
    ensures
        r == precedes(a@, b@),
{
    let x = characters(a);
    let y = characters(b);
    let mut i: usize = 0;
    while i < x.len() && i < y.len() && x[i] == y[i]
        invariant
            i <= x.len(),
            i <= y.len(),
            forall|j: int| 0 <= j < i ==> #[trigger] x@[j] == y@[j],
        decreases x.len() - i,
    {
        i = i + 1;
    }
    if i < y.len() && (i == x.len() || x[i] < y[i]) {
        assert(precedes_at(a@, b@, i as int));
        true
    } else {
        assert forall|k: int| !precedes_at(a@, b@, k) by {
            if precedes_at(a@, b@, k) && i < k {
                assert(a@[i as int] == b@[i as int]);
            }
        }
        false
    }
}

/// Of two different texts one comes before the other.
pub proof fn precedes_is_total(a: Seq<char>, b: Seq<char>)
    ensures
        a == b || precedes(a, b) || precedes(b, a),
{
    precedes_is_total_from(a, b, 0);
}

proof fn precedes_is_total_from(a: Seq<char>, b: Seq<char>, i: int)
    requires
        0 <= i <= a.len(),
        i <= b.len(),
        forall|j: int| 0 <= j < i ==> #[trigger] a[j] == b[j],
    ensures
        a == b || precedes(a, b) || precedes(b, a),
    decreases a.len() - i,
{
    if i == a.len() && i == b.len() {
        assert(a =~= b);
    } else if i < a.len() && i < b.len() && a[i] == b[i] {
        precedes_is_total_from(a, b, i + 1);
    } else {
        assert forall|j: int| 0 <= j < i implies #[trigger] b[j] == a[j] by {
            assert(a[j] == b[j]);
        }
        assert(precedes_at(a, b, i) || precedes_at(b, a, i));
    }
}

/// Dictionary order chains.
pub proof fn precedes_is_transitive(a: Seq<char>, b: Seq<char>, c: Seq<char>)
    requires
        precedes(a, b),
        precedes(b, c),
    ensures
        precedes(a, c),
{
    let i = choose|i: int| precedes_at(a, b, i);
    let j = choose|j: int| precedes_at(b, c, j);
    let k = if i < j {
        i
    } else {
        j
    };
    assert forall|m: int| 0 <= m < k implies #[trigger] a[m] == c[m] by {
        assert(a[m] == b[m]);
        assert(b[m] == c[m]);
    }
    if i < j {
        assert(b[i] == c[i]);
    } else if j < i {
        assert(a[j] == b[j]);
    }
    assert(precedes_at(a, c, k));
}

// ---------------------------------------------------------------------------
// Values that stand for a text
// ---------------------------------------------------------------------------

/// A value that can be given where an option takes text: text itself, a
/// character, a whole number or a truth value.
pub trait OptionText: Sized {
    /// The text that the value stands for.
    spec fn text(&self) -> Seq<char>;

    /// The value as text.
    fn into_text(self) -> (r: String)
        ensures
            r@ == self.text(),
    ;
}

impl OptionText for String {
    open spec fn text(&self) -> Seq<char> {
        self@
    }

    fn into_text(self) -> (r: String) {
        self
    }
}

impl<'a> OptionText for &'a str {
    open spec fn text(&self) -> Seq<char> {
        self@
    }

    fn into_text(self) -> (r: String) {
        self.to_owned()
    }
}

impl<'a> OptionText for &'a String {
    open spec fn text(&self) -> Seq<char> {
        self@
    }

    fn into_text(self) -> (r: String) {
        self.clone()
    }
}

impl OptionText for Box<str> {
    open spec fn text(&self) -> Seq<char> {
        (**self)@
    }

    fn into_text(self) -> (r: String) {
        (*self).to_owned()
    }
}

impl OptionText for char {
    open spec fn text(&self) -> Seq<char> {
        seq![*self]
    }

    fn into_text(self) -> (r: String) {
        let mut r = String::new();
        r.push(self);
        r
    }
}

impl OptionText for bool {
    open spec fn text(&self) -> Seq<char> {
        if *self {
            "true"@
        } else {
            "false"@
        }
    }

    fn into_text(self) -> (r: String) {
        if self {
            "true".to_owned()
        } else {
            "false".to_owned()
        }
    }
}

impl OptionText for u8 {
    open spec fn text(&self) -> Seq<char> {
        decimal(*self as nat)
    }

    fn into_text(self) -> (r: String) {
        decimal_text(self as u128)
    }
}

impl OptionText for u16 {
    open spec fn text(&self) -> Seq<char> {
        decimal(*self as nat)
    }

    fn into_text(self) -> (r: String) {
        decimal_text(self as u128)
    }
}

impl OptionText for u32 {
    open spec fn text(&self) -> Seq<char> {
        decimal(*self as nat)
    }

    fn into_text(self) -> (r: String) {
        decimal_text(self as u128)
    }
}

impl OptionText for u64 {
    open spec fn text(&self) -> Seq<char> {
        decimal(*self as nat)
    }

    fn into_text(self) -> (r: String) {
        decimal_text(self as u128)
    }
}

impl OptionText for u128 {
    open spec fn text(&self) -> Seq<char> {
        decimal(*self as nat)
    }

    fn into_text(self) -> (r: String) {
        decimal_text(self)
    }
}

impl OptionText for usize {
    open spec fn text(&self) -> Seq<char> {
        decimal(*self as nat)
    }

    fn into_text(self) -> (r: String) {
        decimal_text(self as u128)
    }
}

impl OptionText for i8 {
    open spec fn text(&self) -> Seq<char> {
        signed_decimal(*self as int)
    }

    fn into_text(self) -> (r: String) {
        signed_decimal_text(self as i128)
    }
}

impl OptionText for i16 {
    open spec fn text(&self) -> Seq<char> {
        signed_decimal(*self as int)
    }

    fn into_text(self) -> (r: String) {
        signed_decimal_text(self as i128)
    }
}

impl OptionText for i32 {
    open spec fn text(&self) -> Seq<char> {
        signed_decimal(*self as int)
    }

    fn into_text(self) -> (r: String) {
        signed_decimal_text(self as i128)
    }
}

impl OptionText for i64 {
    open spec fn text(&self) -> Seq<char> {
        signed_decimal(*self as int)
    }

    fn into_text(self) -> (r: String) {
        signed_decimal_text(self as i128)
    }
}

impl OptionText for i128 {
    open spec fn text(&self) -> Seq<char> {
        signed_decimal(*self as int)
    }

    fn into_text(self) -> (r: String) {
        signed_decimal_text(self)
    }
}

impl OptionText for isize {
    open spec fn text(&self) -> Seq<char> {
        signed_decimal(*self as int)
    }

    fn into_text(self) -> (r: String) {
        signed_decimal_text(self as i128)
    }
}

// ---------------------------------------------------------------------------
// Laws
// ---------------------------------------------------------------------------

/// The number that a text of decimal digits stands for; none for any other
/// text.
pub open spec fn number_in(s: Seq<char>) -> Option<nat>
    decreases s.len(),
{
    if s.len() == 0 || !('0' <= s.last() <= '9') {
        None
    } else if s.len() == 1 {
        Some((s.last() as int - 48) as nat)
    } else {
        match number_in(s.drop_last()) {
            None => None,
            Some(n) => Some((n * 10 + (s.last() as int - 48)) as nat),
        }
    }
}

/// The number that a text stands for which may start with a minus sign.
pub open spec fn whole_number_in(s: Seq<char>) -> Option<int> {
    if s.len() > 0 && s[0] == '-' {
        match number_in(s.drop_first()) {
            None => None,
            Some(n) => Some(-(n as int)),
        }
    } else {
        match number_in(s) {
            None => None,
            Some(n) => Some(n as int),
        }
    }
}

/// A number in decimal is read as that number, and starts with a zero only
/// where it is zero.
pub proof fn decimal_stands_for_its_number(n: nat)
    ensures
        number_in(decimal(n)) == Some(n),
        n == 0 ==> decimal(n).len() == 1,
        n > 0 ==> decimal(n)[0] != '0',
    decreases n,
{
    let s = decimal(n);
    assert(s.last() == digit(n % 10));
    assert(digit(n % 10) as int == 48 + n % 10);
    if n >= 10 {
        decimal_stands_for_its_number(n / 10);
        decimal_starts_with_a_digit(n / 10);
        assert(s.drop_last() =~= decimal(n / 10));
        assert(n == n / 10 * 10 + n % 10);
    }
    if n > 0 {
        nonzero_decimal_has_no_leading_zero(n);
    }
}

/// A whole number in decimal is read as that number, its sign included.
pub proof fn signed_decimal_stands_for_its_number(n: int)
    ensures
        whole_number_in(signed_decimal(n)) == Some(n),
        n < 0 ==> signed_decimal(n)[0] == '-' && signed_decimal(n)[1] != '0',
        n > 0 ==> signed_decimal(n)[0] != '0',
        n == 0 ==> signed_decimal(n).len() == 1,
{
    if n < 0 {
        let m = (-n) as nat;
        decimal_stands_for_its_number(m);
        decimal_starts_with_a_digit(m);
        assert(signed_decimal(n).drop_first() =~= decimal(m));
        assert(signed_decimal(n)[1] == decimal(m)[0]);
    } else {
        decimal_stands_for_its_number(n as nat);
        decimal_starts_with_a_digit(n as nat);
    }
}

/// A whole number that is given as option text stands for itself, whatever
/// its width.
pub proof fn given_numbers_stand_for_themselves(
    a: u8,
    b: u16,
    c: u32,
    d: u64,
    e: u128,
    f: usize,
    g: i8,
    h: i16,
    i: i32,
    j: i64,
    k: i128,
    l: isize,
)
    ensures
        number_in(a.text()) == Some(a as nat),
        number_in(b.text()) == Some(b as nat),
        number_in(c.text()) == Some(c as nat),
        number_in(d.text()) == Some(d as nat),
        number_in(e.text()) == Some(e as nat),
        number_in(f.text()) == Some(f as nat),
        whole_number_in(g.text()) == Some(g as int),
        whole_number_in(h.text()) == Some(h as int),
        whole_number_in(i.text()) == Some(i as int),
        whole_number_in(j.text()) == Some(j as int),
        whole_number_in(k.text()) == Some(k as int),
        whole_number_in(l.text()) == Some(l as int),
{
    decimal_stands_for_its_number(a as nat);
    decimal_stands_for_its_number(b as nat);
    decimal_stands_for_its_number(c as nat);
    decimal_stands_for_its_number(d as nat);
    decimal_stands_for_its_number(e as nat);
    decimal_stands_for_its_number(f as nat);
    signed_decimal_stands_for_its_number(g as int);
    signed_decimal_stands_for_its_number(h as int);
    signed_decimal_stands_for_its_number(i as int);
    signed_decimal_stands_for_its_number(j as int);
    signed_decimal_stands_for_its_number(k as int);
    signed_decimal_stands_for_its_number(l as int);
}

/// Text that is given as option text is taken as it stands, a character as the
/// text of that one character, and a truth value as its word.
pub proof fn given_texts_are_taken_as_they_stand(
    a: String,
    b: &str,
    c: &String,
    d: Box<str>,
    e: char,
    f: bool,
)
    ensures
        a.text() == a@,
        b.text() == b@,
        c.text() == c@,
        d.text() == (*d)@,
        e.text().len() == 1 && e.text()[0] == e,
        f.text() == if f {
            "true"@
        } else {
            "false"@
        },
{
}

/// The texts of a list stand in its order.
pub proof fn texts_keep_their_order(v: Seq<String>)
    ensures
        texts(v).len() == v.len(),
        forall|i: int| 0 <= i < v.len() ==> #[trigger] texts(v)[i] == v[i]@,
{
}

/// Joining adds nothing but one separator between neighbours: nothing joined
/// is nothing, one part is itself, and a part more is a separator and the part
/// more.
pub proof fn joining_only_adds_separators(
    parts: Seq<Seq<char>>,
    next: Seq<char>,
    separator: Seq<char>,
)
    ensures
        join(seq![], separator).len() == 0,
        parts.len() == 0 ==> join(parts.push(next), separator) == next,
        parts.len() > 0 ==> join(parts.push(next), separator) == join(parts, separator) + separator
            + next,
{
    assert(parts.push(next).drop_last() =~= parts);
}

/// A text is held exactly where something stands before it and something
/// behind it, be it nothing.
pub proof fn held_text_stands_between_two_others(
    haystack: Seq<char>,
    before: Seq<char>,
    needle: Seq<char>,
    after: Seq<char>,
)
    ensures
        contains_text(before + needle + after, needle),
        contains_text(haystack, needle) ==> exists|a: Seq<char>, b: Seq<char>|
            haystack == #[trigger] (a + needle + b),
{
    let whole = before + needle + after;
    let at = before.len() as int;
    assert(whole.subrange(at, at + needle.len()) =~= needle);
    assert(occurs_at(whole, needle, at));
    if contains_text(haystack, needle) {
        let i = choose|i: int| occurs_at(haystack, needle, i);
        let a = haystack.subrange(0, i);
        let b = haystack.subrange(i + needle.len(), haystack.len() as int);
        assert(haystack =~= a + needle + b);
    }
}

/// The first character in which two texts differ decides their order; a text
/// comes before every longer text that starts with it, and never before
/// itself.
pub proof fn first_difference_decides_the_order(
    start: Seq<char>,
    smaller: char,
    greater: char,
    x: Seq<char>,
    y: Seq<char>,
)
    requires
        smaller < greater,
    ensures
        precedes(start + seq![smaller] + x, start + seq![greater] + y),
        !precedes(start + seq![greater] + y, start + seq![smaller] + x),
        x.len() > 0 ==> precedes(start, start + x) && !precedes(start + x, start),
        !precedes(start, start),
{
    let a = start + seq![smaller] + x;
    let b = start + seq![greater] + y;
    let n = start.len() as int;
    assert(a[n] == smaller && b[n] == greater);
    assert forall|j: int| 0 <= j < n implies #[trigger] a[j] == b[j] by {}
    assert(precedes_at(a, b, n));
    if precedes(b, a) {
        let i = choose|i: int| precedes_at(b, a, i);
        if i < n {
            assert(a[i] == start[i] && b[i] == start[i]);
        } else if i > n {
            assert(b[n] == a[n]);
        }
    }
    let longer = start + x;
    if x.len() > 0 {
        assert forall|j: int| 0 <= j < n implies #[trigger] start[j] == longer[j] by {}
        assert(precedes_at(start, longer, n));
        if precedes(longer, start) {
            let i = choose|i: int| precedes_at(longer, start, i);
            assert(longer[i] == start[i]);
        }
    }
    if precedes(start, start) {
        let i = choose|i: int| precedes_at(start, start, i);
    }
}

/// Every part of a joined text stands in it.
pub proof fn joined_text_holds_every_part(parts: Seq<Seq<char>>, separator: Seq<char>, i: int)
    requires
        0 <= i < parts.len(),
    ensures
        contains_text(join(parts, separator), parts[i]),
    decreases parts.len(),
{
    let whole = join(parts, separator);
    if parts.len() == 1 {
        assert(seq![] + parts[0] + seq![] =~= whole);
        held_text_stands_between_two_others(whole, seq![], parts[0], seq![]);
    } else if i == parts.len() - 1 {
        let before = join(parts.drop_last(), separator) + separator;
        assert(before + parts[i] + seq![] =~= whole);
        held_text_stands_between_two_others(whole, before, parts[i], seq![]);
    } else {
        let front = parts.drop_last();
        joined_text_holds_every_part(front, separator, i);
        held_text_stands_between_two_others(join(front, separator), seq![], front[i], seq![]);
        let (a, b) = choose|a: Seq<char>, b: Seq<char>|
            join(front, separator) == #[trigger] (a + front[i] + b);
        let after = b + separator + parts.last();
        assert(whole =~= a + parts[i] + after);
        held_text_stands_between_two_others(whole, a, parts[i], after);
    }
}

} // verus!
