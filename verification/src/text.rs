//! Text the backend reads and hands on: C-compatible strings, comma lists and
//! decimal numbers.
use vstd::arithmetic::power::*;
use vstd::prelude::*;
use vstd::string::*;

verus! {

/// Whether `text` can be passed as a C string, whose end is its first NUL.
pub open spec fn nul_free(text: Seq<char>) -> bool {
    !text.contains('\0')
}

/// A text can be a C string exactly where every one of its characters is
/// another than NUL, wherever it stands.
pub proof fn law_nul_free(text: Seq<char>)
    ensures
        nul_free(text) <==> forall|i: int| 0 <= i < text.len() ==> #[trigger] text[i] != '\0',
{
    if nul_free(text) {
        assert forall|i: int| 0 <= i < text.len() implies #[trigger] text[i] != '\0' by {
            if text[i] == '\0' {
                assert(text.contains('\0'));
            }
        }
    }
}

/// Text without a NUL character.
#[derive(Debug)]
pub struct NulFree {
    text: String,
}

impl View for NulFree {
    type V = Seq<char>;

    closed spec fn view(&self) -> Seq<char> {
        self.text@
    }
}

impl NulFree {
    #[verifier::type_invariant]
    spec fn inv(self) -> bool {
        nul_free(self.text@)
    }

    /// Takes `text` over when it holds no NUL character.
    pub fn new(text: &str) -> (res: Option<NulFree>)
        ensures
            res is Some <==> nul_free(text@),
            res matches Some(t) ==> t@ == text@,
    {
        for c in it: text.chars()
            invariant
                it.seq() == text@,
                forall|i: int| 0 <= i < it.index() ==> text@[i] != '\0',
        {
            if c == '\0' {
                assert(text@[it.index()] == c);
                return None;
            }
        }
        Some(NulFree { text: text.to_owned() })
    }

    /// The text itself.
    pub fn as_str(&self) -> (res: &str)
        ensures
            res@ == self@,
            nul_free(res@),
    {
        proof {
            use_type_invariant(self);
        }
        self.text.as_str()
    }
}

impl Clone for NulFree {
    fn clone(&self) -> (res: NulFree)
        ensures
            res@ == self@,
    {
        proof {
            use_type_invariant(self);
        }
        NulFree { text: self.text.clone() }
    }
}

/// The characters of `text`.
pub(crate) fn characters(text: &str) -> (res: Vec<char>)
    ensures
        res@ == text@,
{
    let mut res: Vec<char> = Vec::new();
    for c in it: text.chars()
        invariant
            it.seq() == text@,
            res@ == text@.take(it.index() as int),
    {
        res.push(c);
    }
    res
}

/// The contents of each string of a list.
pub open spec fn texts(list: Seq<String>) -> Seq<Seq<char>> {
    Seq::new(list.len(), |i: int| list[i]@)
}

/// The contents of a list of strings are those of each string, in order.
pub proof fn law_texts(list: Seq<String>)
    ensures
        texts(list).len() == list.len(),
        forall|i: int| 0 <= i < list.len() ==> #[trigger] texts(list)[i] == list[i]@,
{
}

/// The first `count` parts with `sep` between neighbours.
pub open spec fn joined_prefix(parts: Seq<Seq<char>>, sep: Seq<char>, count: nat) -> Seq<char>
    decreases count,
{
    if count == 0 {
        Seq::empty()
    } else if count == 1 {
        parts[0]
    } else {
        joined_prefix(parts, sep, (count - 1) as nat) + sep + parts[count - 1]
    }
}

/// All parts with `sep` between neighbours.
pub open spec fn joined(parts: Seq<Seq<char>>, sep: Seq<char>) -> Seq<char> {
    joined_prefix(parts, sep, parts.len())
}

/// Puts the strings one after the other, with `sep` between neighbours.
pub fn join(parts: &Vec<String>, sep: &str) -> (res: String)
    ensures
        res@ == joined(texts(parts@), sep@),
{
    let mut res = String::new();
    for i in 0..parts.len()
        invariant
            res@ == joined_prefix(texts(parts@), sep@, i as nat),
    {
        if i > 0 {
            res.append(sep);
        }
        res.append(parts[i].as_str());
    }
    res
}

/// The pieces of `text` between the occurrences of `sep`: one more piece than
/// there are separators, each possibly empty.
pub open spec fn pieces(text: Seq<char>, sep: char) -> Seq<Seq<char>>
    decreases text.len(),
{
    if text.len() == 0 {
        seq![Seq::empty()]
    } else {
        let before = pieces(text.drop_last(), sep);
        if text.last() == sep {
            before.push(Seq::empty())
        } else {
            before.drop_last().push(before.last().push(text.last()))
        }
    }
}

/// Cuts `text` at every `sep`.
pub fn split(text: &str, sep: char) -> (res: Vec<String>)
    ensures
        texts(res@) == pieces(text@, sep),
{
    let chars = characters(text);
    let mut res: Vec<String> = Vec::new();
    let mut start: usize = 0;
    assert(text@.take(0) =~= Seq::empty());
    assert(texts(res@).push(text@.subrange(0, 0)) =~~= seq![Seq::<char>::empty()]);
    for i in 0..chars.len()
        invariant
            chars@ == text@,
            start <= i <= chars.len(),
            pieces(text@.take(i as int), sep) == texts(res@).push(
                text@.subrange(start as int, i as int),
            ),
    {
        let ghost upto = text@.take(i + 1);
        assert(upto.drop_last() == text@.take(i as int));
        if chars[i] == sep {
            let ghost before = texts(res@);
            res.push(text.substring_char(start, i).to_owned());
            assert(texts(res@) == before.push(text@.subrange(start as int, i as int)));
            start = i + 1;
            assert(text@.subrange(start as int, i + 1) =~= Seq::empty());
        } else {
            assert(text@.subrange(start as int, i + 1) == text@.subrange(
                start as int,
                i as int,
            ).push(text@[i as int]));
            assert(texts(res@).push(text@.subrange(start as int, i as int)).drop_last() == texts(
                res@,
            ));
        }
    }
    assert(text@.take(chars.len() as int) == text@);
    let ghost before = texts(res@);
    res.push(text.substring_char(start, chars.len()).to_owned());
    assert(texts(res@) == before.push(text@.subrange(start as int, chars.len() as int)));
    res
}

/// Cutting a text and joining the pieces gives the text back, and no piece
/// holds the separator.
pub proof fn law_split_join(text: Seq<char>, sep: char)
    ensures
        joined(pieces(text, sep), seq![sep]) == text,
        pieces(text, sep).len() > 0,
        forall|i: int| 0 <= i < pieces(text, sep).len() ==> !(#[trigger] pieces(text, sep)[i]).contains(
            sep,
        ),
    decreases text.len(),
{
    let all = pieces(text, sep);
    if text.len() > 0 {
        let front = text.drop_last();
        let before = pieces(front, sep);
        law_split_join(front, sep);
        assert(text == front.push(text.last()));
        if text.last() == sep {
            lemma_joined_prefix_eq(before, all, seq![sep], before.len());
        } else {
            let n = (before.len() - 1) as nat;
            lemma_joined_prefix_eq(before, all, seq![sep], n);
            assert(all[n as int] == before[n as int].push(text.last()));
        }
    }
}

/// Joining two lists end to end puts one separator between what each of them
/// joins to. A list of one part joins to that part, and no parts join to
/// nothing.
pub proof fn law_join(a: Seq<Seq<char>>, b: Seq<Seq<char>>, part: Seq<char>, sep: Seq<char>)
    ensures
        joined(Seq::empty(), sep) == Seq::<char>::empty(),
        joined(seq![part], sep) == part,
        a.len() > 0 && b.len() > 0 ==> joined(a + b, sep) == joined(a, sep) + sep + joined(b, sep),
    decreases b.len(),
{
    if a.len() > 0 && b.len() > 0 {
        let whole = a + b;
        let n = (whole.len() - 1) as nat;
        if b.len() == 1 {
            lemma_joined_prefix_eq(whole, a, sep, n);
        } else {
            let front = b.drop_last();
            law_join(a, front, part, sep);
            lemma_joined_prefix_eq(whole, a + front, sep, n);
            lemma_joined_prefix_eq(b, front, sep, front.len());
        }
        assert(joined(whole, sep) =~= joined(a, sep) + sep + joined(b, sep));
    }
}

/// A text that a separator is put into is cut there: the pieces are those of
/// what comes before it, then those of what comes after it. A text without
/// the separator is its own only piece.
pub proof fn law_split_at_separator(a: Seq<char>, b: Seq<char>, sep: char)
    ensures
        pieces(a + seq![sep] + b, sep) == pieces(a, sep) + pieces(b, sep),
        !a.contains(sep) ==> pieces(a, sep) == seq![a],
    decreases a.len() + b.len(),
{
    let whole = a + seq![sep] + b;
    law_split_join(b, sep);
    if b.len() == 0 {
        assert(whole.drop_last() =~= a);
        assert(pieces(whole, sep) =~= pieces(a, sep) + pieces(b, sep));
    } else {
        let front = b.drop_last();
        law_split_at_separator(a, front, sep);
        law_split_join(front, sep);
        assert(whole.drop_last() =~= a + seq![sep] + front);
        assert(pieces(whole, sep) =~= pieces(a, sep) + pieces(b, sep));
    }
    if a.len() == 0 {
        assert(a =~= Seq::empty());
    } else if !a.contains(sep) {
        let front = a.drop_last();
        assert(!front.contains(sep)) by {
            if front.contains(sep) {
                let i = front.index_of(sep);
                assert(a[i] == sep);
            }
        }
        assert(a.contains(a.last()));
        law_split_at_separator(front, Seq::empty(), sep);
        assert(front.push(a.last()) =~= a);
        assert(pieces(a, sep) =~= seq![a]);
    }
}

/// Joining parts that do not hold the separator and cutting the result gives
/// the parts back.
pub proof fn law_join_split(parts: Seq<Seq<char>>, sep: char)
    requires
        parts.len() > 0,
        forall|i: int| 0 <= i < parts.len() ==> !(#[trigger] parts[i]).contains(sep),
    ensures
        pieces(joined(parts, seq![sep]), sep) == parts,
    decreases parts.len(),
{
    let last = parts.last();
    assert(!parts[parts.len() - 1].contains(sep));
    if parts.len() == 1 {
        assert(parts =~= seq![last]);
        law_split_at_separator(last, Seq::empty(), sep);
        law_join(parts, parts, last, seq![sep]);
    } else {
        let front = parts.drop_last();
        assert forall|i: int| 0 <= i < front.len() implies !(#[trigger] front[i]).contains(sep) by {
            assert(front[i] == parts[i]);
        }
        law_join_split(front, sep);
        assert(parts =~= front + seq![last]);
        law_join(front, seq![last], last, seq![sep]);
        law_split_at_separator(last, Seq::empty(), sep);
        law_split_at_separator(joined(front, seq![sep]), last, sep);
    }
}

/// What parts join to can be a C string exactly where the parts can, for a
/// separator that can.
pub proof fn law_join_nul_free(parts: Seq<Seq<char>>, sep: Seq<char>)
    requires
        nul_free(sep),
    ensures
        nul_free(joined(parts, sep)) <==> forall|i: int|
            0 <= i < parts.len() ==> nul_free(#[trigger] parts[i]),
    decreases parts.len(),
{
    if parts.len() == 0 {
        law_join(parts, parts, Seq::empty(), sep);
        assert(parts =~= Seq::empty());
    } else if parts.len() == 1 {
        assert(parts =~= seq![parts[0]]);
        law_join(parts, parts, parts[0], sep);
    } else {
        let front = parts.drop_last();
        let last = parts.last();
        law_join_nul_free(front, sep);
        assert(parts =~= front + seq![last]);
        law_join(front, seq![last], last, sep);
        lemma_nul_free_concat(joined(front, sep), sep);
        lemma_nul_free_concat(joined(front, sep) + sep, last);
        if nul_free(joined(parts, sep)) {
            assert forall|i: int| 0 <= i < parts.len() implies nul_free(#[trigger] parts[i]) by {
                if i < front.len() {
                    assert(front[i] == parts[i]);
                }
            }
        }
        if forall|i: int| 0 <= i < parts.len() ==> nul_free(#[trigger] parts[i]) {
            assert forall|i: int| 0 <= i < front.len() implies nul_free(#[trigger] front[i]) by {
                assert(front[i] == parts[i]);
            }
            assert(nul_free(parts[parts.len() - 1]));
        }
    }
}

proof fn lemma_nul_free_concat(a: Seq<char>, b: Seq<char>)
    ensures
        nul_free(a + b) <==> nul_free(a) && nul_free(b),
{
    law_nul_free(a);
    law_nul_free(b);
    law_nul_free(a + b);
    if nul_free(a + b) {
        assert forall|i: int| 0 <= i < a.len() implies #[trigger] a[i] != '\0' by {
            assert((a + b)[i] == a[i]);
        }
        assert forall|i: int| 0 <= i < b.len() implies #[trigger] b[i] != '\0' by {
            assert((a + b)[a.len() + i] == b[i]);
        }
    }
}

/// Whether two texts say the same, the first of `a` and the second of `b`:
/// they hold these at one place and are equal before and after it.
pub open spec fn alike_but_for(
    first: Seq<char>,
    a: Seq<char>,
    second: Seq<char>,
    b: Seq<char>,
) -> bool {
    exists|p: int|
        #![trigger first.take(p)]
        0 <= p && p + a.len() <= first.len() && p + b.len() <= second.len() && first.take(p)
            == second.take(p) && first.subrange(p, p + a.len()) == a && second.subrange(
            p,
            p + b.len(),
        ) == b && first.skip(p + a.len()) == second.skip(p + b.len())
}

/// A text with a gap says the same of whatever fills the gap.
pub proof fn law_alike(before: Seq<char>, a: Seq<char>, b: Seq<char>, after: Seq<char>)
    ensures
        alike_but_for(before + a + after, a, before + b + after, b),
{
    let p = before.len() as int;
    let first = before + a + after;
    let second = before + b + after;
    assert(first.take(p) =~= second.take(p));
    assert(first.subrange(p, p + a.len()) =~= a);
    assert(second.subrange(p, p + b.len()) =~= b);
    assert(first.skip(p + a.len()) =~= second.skip(p + b.len()));
}

/// The prefix joined from two lists is the same where the lists agree.
proof fn lemma_joined_prefix_eq(
    a: Seq<Seq<char>>,
    b: Seq<Seq<char>>,
    sep: Seq<char>,
    count: nat,
)
    requires
        count <= a.len(),
        count <= b.len(),
        forall|i: int| 0 <= i < count ==> a[i] == b[i],
    ensures
        joined_prefix(a, sep, count) == joined_prefix(b, sep, count),
    decreases count,
{
    if count > 1 {
        lemma_joined_prefix_eq(a, b, sep, (count - 1) as nat);
    }
}

/// Whether `c` is one of the digits 0 to 9.
pub open spec fn is_digit(c: char) -> bool {
    '0' <= c <= '9'
}

/// Whether `text` is a decimal numeral: one or more digits, without a sign.
pub open spec fn is_decimal(text: Seq<char>) -> bool {
    &&& text.len() > 0
    &&& forall|i: int| 0 <= i < text.len() ==> is_digit(#[trigger] text[i])
}

/// The number that a row of digits stands for.
pub open spec fn decimal_value(digits: Seq<char>) -> nat
    decreases digits.len(),
{
    if digits.len() == 0 {
        0
    } else {
        10 * decimal_value(digits.drop_last()) + (digits.last() as nat - '0' as nat) as nat
    }
}

/// The decimal numeral of `n` without leading zeros.
pub open spec fn decimal_text(n: nat) -> Seq<char>
    decreases n,
{
    if n < 10 {
        seq![('0' as nat + n) as char]
    } else {
        decimal_text(n / 10).push(('0' as nat + n % 10) as char)
    }
}

/// Reading the numeral of a number gives the number back.
pub proof fn law_decimal_round_trip(n: nat)
    ensures
        is_decimal(decimal_text(n)),
        decimal_value(decimal_text(n)) == n,
    decreases n,
{
    let text = decimal_text(n);
    if n < 10 {
        reveal_with_fuel(decimal_value, 2);
        assert(text.drop_last() =~= Seq::empty());
    } else {
        law_decimal_round_trip(n / 10);
        assert(text.drop_last() =~= decimal_text(n / 10));
    }
}

/// A character is a decimal numeral exactly where it is one of the ten digits,
/// and then stands for its distance from zero; a text put together of two is
/// one exactly where both are.
pub proof fn law_decimal_digits(c: char, a: Seq<char>, b: Seq<char>)
    ensures
        is_decimal(seq![c]) <==> "0123456789"@.contains(c),
        is_decimal(seq![c]) ==> "0123456789"@[decimal_value(seq![c]) as int] == c,
        !is_decimal(Seq::empty()),
        a.len() > 0 && b.len() > 0 ==> (is_decimal(a + b) <==> is_decimal(a) && is_decimal(b)),
{
    reveal_strlit("0123456789");
    let digits = "0123456789"@;
    let one = seq![c];
    assert(one.drop_last() =~= Seq::empty());
    reveal_with_fuel(decimal_value, 2);
    if is_decimal(one) {
        assert(is_digit(one[0]));
        let i = c as int - '0' as int;
        assert(digits[i] == c);
    }
    if digits.contains(c) {
        let i = digits.index_of(c);
        assert(is_digit(digits[i]));
    }
    if a.len() > 0 && b.len() > 0 {
        let whole = a + b;
        if is_decimal(whole) {
            assert forall|i: int| 0 <= i < a.len() implies is_digit(#[trigger] a[i]) by {
                assert(whole[i] == a[i]);
            }
            assert forall|i: int| 0 <= i < b.len() implies is_digit(#[trigger] b[i]) by {
                assert(whole[a.len() + i] == b[i]);
            }
        }
    }
}

/// Digits that come before others count ten times as much for each of these.
pub proof fn law_decimal_positions(a: Seq<char>, b: Seq<char>)
    ensures
        decimal_value(Seq::empty()) == 0,
        decimal_value(a + b) == decimal_value(a) * pow(10, b.len()) + decimal_value(b),
    decreases b.len(),
{
    reveal(pow);
    if b.len() == 0 {
        assert(a + b =~= a);
    } else {
        let front = b.drop_last();
        law_decimal_positions(a, front);
        assert((a + b).drop_last() =~= a + front);
        let value = decimal_value(a) as int;
        let power = pow(10, front.len());
        assert(10 * (value * power) == value * (10 * power)) by (nonlinear_arith);
    }
}

/// A longer row of digits stands for a number at least as large.
proof fn lemma_decimal_grows(digits: Seq<char>, count: int)
    requires
        0 <= count <= digits.len(),
    ensures
        decimal_value(digits.take(count)) <= decimal_value(digits),
    decreases digits.len() - count,
{
    if count < digits.len() {
        lemma_decimal_grows(digits, count + 1);
        assert(digits.take(count + 1).drop_last() =~= digits.take(count));
    } else {
        assert(digits.take(count) =~= digits);
    }
}

/// Reads the characters from `from` up to `to` as a decimal numeral that fits
/// an `i32`.
pub(crate) fn read_decimal(chars: &Vec<char>, from: usize, to: usize) -> (res: Option<i32>)
    requires
        from <= to <= chars.len(),
    ensures
        ({
            let digits = chars@.subrange(from as int, to as int);
            &&& res is Some <==> is_decimal(digits) && decimal_value(digits) <= i32::MAX
            &&& res matches Some(n) ==> n == decimal_value(digits)
        }),
{
    let ghost digits = chars@.subrange(from as int, to as int);
    if from == to {
        return None;
    }
    let mut value: i32 = 0;
    let mut i: usize = from;
    while i < to
        invariant
            from <= i <= to <= chars.len(),
            digits == chars@.subrange(from as int, to as int),
            forall|k: int| 0 <= k < i - from ==> is_digit(#[trigger] digits[k]),
            0 <= value,
            value == decimal_value(digits.take(i - from)),
        decreases to - i,
    {
        let c = chars[i];
        assert(digits[i - from] == c);
        if c < '0' || c > '9' {
            return None;
        }
        assert(digits.take(i + 1 - from).drop_last() =~= digits.take(i - from));
        proof {
            lemma_decimal_grows(digits, i + 1 - from);
        }
        let digit: i32 = (c as u32 - '0' as u32) as i32;
        if value > (i32::MAX - digit) / 10 {
            return None;
        }
        value = value * 10 + digit;
        i = i + 1;
    }
    assert(digits.take(to - from) =~= digits);
    Some(value)
}

} // verus!
