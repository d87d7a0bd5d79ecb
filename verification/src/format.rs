use vstd::prelude::*;
use vstd::string::StringExecFns;
use crate::chars::{chars_of, push_char};

verus! {

/// The decimal digit for `d`, which is below ten.
pub open spec fn digit_of(d: nat) -> char {
    seq!['0', '1', '2', '3', '4', '5', '6', '7', '8', '9'][d as int]
}

/// The decimal digits of `n`, without leading zeros.
pub open spec fn decimal(n: nat) -> Seq<char>
    decreases n,
{
    if n < 10 {
        seq![digit_of(n)]
    } else {
        decimal(n / 10).push(digit_of(n % 10))
    }
}

/// The three decimal digits of `n`, which is below a thousand, with leading
/// zeros.
pub open spec fn three_digits(n: nat) -> Seq<char> {
    seq![digit_of(n / 100), digit_of(n / 10 % 10), digit_of(n % 10)]
}

/// The decimal digits of `n` in groups of three from the right, with a comma
/// between two groups.
pub open spec fn grouped(n: nat) -> Seq<char>
    decreases n,
{
    if n < 1000 {
        decimal(n)
    } else {
        grouped(n / 1000) + seq![','] + three_digits(n % 1000)
    }
}

/// `name` as it is shown in a column of `max_len` characters: as it is where
/// it fits, else its first `max_len - 3` characters, or none where `max_len` is
/// below three, and an ellipsis of three dots.
pub open spec fn shortened(name: Seq<char>, max_len: nat) -> Seq<char> {
    if name.len() > max_len {
        name.take(if max_len >= 3 { max_len - 3 } else { 0 }) + seq!['.', '.', '.']
    } else {
        name
    }
}

/// `text` without its commas.
pub open spec fn without_commas(text: Seq<char>) -> Seq<char> {
    text.filter(|c: char| c != ',')
}

/// A text that holds no comma is left as it is when its commas are taken out.
proof fn lemma_nothing_to_take_out(text: Seq<char>)
    requires
        forall|i: int| 0 <= i < text.len() ==> text[i] != ',',
    ensures
        without_commas(text) == text,
    decreases text.len(),
{
    reveal(Seq::filter);
    if text.len() > 0 {
        lemma_nothing_to_take_out(text.drop_last());
        assert(text.drop_last().push(text.last()) =~= text);
    }
}

/// The digits of a number hold no comma.
proof fn lemma_decimal_holds_digits(n: nat)
    ensures
        forall|i: int| 0 <= i < decimal(n).len() ==> decimal(n)[i] != ',',
    decreases n,
{
    assert(forall|d: nat| d < 10 ==> #[trigger] digit_of(d) != ',');
    if n >= 10 {
        lemma_decimal_holds_digits(n / 10);
        let high = decimal(n / 10);
        assert forall|i: int| 0 <= i < decimal(n).len() implies decimal(n)[i] != ',' by {
            if i < high.len() {
                assert(decimal(n)[i] == high[i]);
            } else {
                assert(decimal(n)[i] == digit_of(n % 10));
            }
        }
    } else {
        assert(decimal(n)[0] == digit_of(n));
    }
}

/// The digits of a number of four digits or more are the digits of its
/// thousands and then the three digits of the rest.
proof fn lemma_decimal_by_thousands(n: nat)
    requires
        n >= 1000,
    ensures
        decimal(n) == decimal(n / 1000) + three_digits(n % 1000),
{
    let tens = n / 10;
    let hundreds = n / 100;
    assert(tens / 10 == hundreds);
    assert(hundreds / 10 == n / 1000);
    assert(decimal(n) == decimal(tens).push(digit_of(n % 10)));
    assert(decimal(tens) == decimal(hundreds).push(digit_of(tens % 10)));
    assert(decimal(hundreds) == decimal(n / 1000).push(digit_of(hundreds % 10)));
    assert(n % 1000 / 100 == hundreds % 10);
    assert(n % 1000 / 10 % 10 == tens % 10);
    assert(n % 1000 % 10 == n % 10);
    assert(decimal(n) =~= decimal(n / 1000) + three_digits(n % 1000));
}

/// Grouping adds commas and nothing else: without them, the digits of the
/// number are left.
pub proof fn lemma_grouping_adds_commas_only(n: nat)
    ensures
        without_commas(grouped(n)) == decimal(n),
    decreases n,
{
    if n < 1000 {
        lemma_decimal_holds_digits(n);
        lemma_nothing_to_take_out(decimal(n));
    } else {
        let high = grouped(n / 1000);
        let low = three_digits(n % 1000);
        let keep = |c: char| c != ',';
        lemma_grouping_adds_commas_only(n / 1000);
        lemma_decimal_by_thousands(n);
        lemma_nothing_to_take_out(low);
        Seq::filter_distributes_over_add(high + seq![','], low, keep);
        Seq::filter_distributes_over_add(high, seq![','], keep);
        assert(seq![','].filter(keep) =~= Seq::<char>::empty()) by {
            reveal_with_fuel(Seq::filter, 2);
        }
        assert(without_commas(grouped(n)) =~= decimal(n / 1000) + low);
    }
}

/// A shortened name fits a column of three characters or more.
pub proof fn lemma_shortened_fits(name: Seq<char>, max_len: nat)
    requires
        max_len >= 3,
    ensures
        shortened(name, max_len).len() <= max_len,
        name.len() > max_len ==> shortened(name, max_len).len() == max_len,
{
}

/// The decimal digit for `d`.
fn digit(d: usize) -> (c: char)
    requires
        d < 10,
    ensures
        c == digit_of(d as nat),
{
    match d {
        0 => '0',
        1 => '1',
        2 => '2',
        3 => '3',
        4 => '4',
        5 => '5',
        6 => '6',
        7 => '7',
        8 => '8',
        _ => '9',
    }
}

/// Appends the decimal digits of `n` to `out`.
fn push_decimal(out: &mut String, n: usize)
    ensures
        final(out)@ == old(out)@ + decimal(n as nat),
    decreases n,
{
    if n >= 10 {
        push_decimal(out, n / 10);
    }
    push_char(out, digit(n % 10));
    assert(final(out)@ =~= old(out)@ + decimal(n as nat));
}

/// Appends the digits of `n` to `out`, in groups of three.
fn push_grouped(out: &mut String, n: usize)
    ensures
        final(out)@ == old(out)@ + grouped(n as nat),
    decreases n,
{
    if n < 1000 {
        push_decimal(out, n);
    } else {
        push_grouped(out, n / 1000);
        let low: usize = n % 1000;
        push_char(out, ',');
        push_char(out, digit(low / 100));
        push_char(out, digit(low / 10 % 10));
        push_char(out, digit(low % 10));
        assert(final(out)@ =~= old(out)@ + grouped(n as nat));
    }
}

/// Writes `num` in decimal with a comma before every group of three digits
/// but the first: 1234567 gives `1,234,567`.
pub fn format_number(num: usize) -> (text: String)
    ensures
        text@ == grouped(num as nat),
{
    let mut text = String::new();
    push_grouped(&mut text, num);
    assert(text@ =~= grouped(num as nat));
    text
}

/// Fits `name` into a column of `max_len` characters: a longer name is cut to
/// its first `max_len - 3` characters, with an ellipsis behind them.
pub fn format_filename(name: &str, max_len: usize) -> (text: String)
    ensures
        text@ == shortened(name@, max_len as nat),
{
    let chars = chars_of(name);
    if chars.len() <= max_len {
        return String::from_str(name);
    }
    let keep: usize = if max_len >= 3 { max_len - 3 } else { 0 };
    let mut text = String::new();
    let mut i: usize = 0;
    while i < keep
        invariant
            i <= keep <= chars.len(),
            text@ == chars@.take(i as int),
        decreases keep - i,
    {
        push_char(&mut text, chars[i]);
        assert(chars@.take(i as int + 1) =~= chars@.take(i as int).push(chars@[i as int]));
        i += 1;
    }
    push_char(&mut text, '.');
    push_char(&mut text, '.');
    push_char(&mut text, '.');
    assert(text@ =~= chars@.take(keep as int) + seq!['.', '.', '.']);
    text
}

} // verus!
