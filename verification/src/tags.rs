//! Metric tags.
use vstd::prelude::*;
use vstd::string::StringExecFns;

verus! {

/// The character of a decimal digit.
pub open spec fn digit(n: nat) -> char {
    ('0' as nat + n) as char
}

/// The decimal digits of a natural number, without leading zeros.
pub open spec fn digits(n: nat) -> Seq<char>
    decreases n,
{
    if n < 10 {
        seq![digit(n)]
    } else {
        digits(n / 10).push(digit(n % 10))
    }
}

/// An integer in decimal notation.
pub open spec fn decimal(n: int) -> Seq<char> {
    if n < 0 {
        seq!['-'] + digits((-n) as nat)
    } else {
        digits(n as nat)
    }
}

/// `String::push` of std appends the character.
pub assume_specification[ String::push ](s: &mut String, c: char)
    ensures
        final(s)@ == old(s)@.push(c),
;

/// The character of a decimal digit; the digits follow on `0`, which is number 48.
fn digit_char(n: u8) -> (r: char)
    requires
        n < 10,
    ensures
        r == digit(n as nat),
{
    (48u8 + n) as char
}

/// Appends the decimal digits of a natural number.
fn push_digits(text: &mut String, n: u128)
    ensures
        final(text)@ == old(text)@ + digits(n as nat),
    decreases n,
{
    let ghost before = text@;
    if n < 10 {
        text.push(digit_char(n as u8));
        assert(text@ =~= before + digits(n as nat));
    } else {
        push_digits(text, n / 10);
        text.push(digit_char((n % 10) as u8));
        assert(text@ =~= before + digits(n as nat));
    }
}

/// An integer in decimal notation.
pub fn integer_text(n: i128) -> (r: String)
    ensures
        r@ == decimal(n as int),
{
    let mut text = String::new();
    if n < 0 {
        let magnitude: u128 = (-(n + 1)) as u128 + 1;
        text.push('-');
        push_digits(&mut text, magnitude);
        assert(text@ =~= decimal(n as int));
    } else {
        push_digits(&mut text, n as u128);
        assert(text@ =~= decimal(n as int));
    }
    text
}

/// The index of the last bin whose lower bound does not exceed `counter`; -1 if
/// there is none.
pub open spec fn bin_index(counter: int, bins: Seq<i32>) -> int
    decreases bins.len(),
{
    if bins.len() == 0 {
        -1
    } else if counter >= bins.last() {
        bins.len() - 1
    } else {
        bin_index(counter, bins.drop_last())
    }
}

/// The lower bound of the bin of `counter`.
pub open spec fn bin_start(counter: int, bins: Seq<i32>) -> Seq<char> {
    let i = bin_index(counter, bins);
    if i >= 0 {
        decimal(bins[i] as int)
    } else {
        "-inf"@
    }
}

/// The upper bound of the bin of `counter`.
pub open spec fn bin_end(counter: int, bins: Seq<i32>) -> Seq<char> {
    let i = bin_index(counter, bins);
    if i + 1 < bins.len() {
        decimal(bins[i + 1] as int)
    } else {
        "inf"@
    }
}

/// The tag for a counter: the bounds of its bin, or `none` without a counter.
pub open spec fn bin_tag(counter: Option<i32>, bins: Seq<i32>) -> Seq<char> {
    match counter {
        None => "none"@,
        Some(c) => bin_start(c as int, bins) + "_"@ + bin_end(c as int, bins),
    }
}

/// The bin index is found by walking down from the end.
pub(crate) proof fn lemma_bin_index(counter: int, bins: Seq<i32>, i: int)
    requires
        -1 <= i < bins.len(),
        forall|j: int| i < j < bins.len() ==> counter < bins[j],
        i >= 0 ==> counter >= bins[i],
    ensures
        bin_index(counter, bins) == i,
    decreases bins.len(),
{
    if bins.len() > 0 && i < bins.len() - 1 {
        lemma_bin_index(counter, bins.drop_last(), i);
    }
}

/// The tag that groups `counter` with the counters of its bin. `bins` holds the
/// lower bounds.
pub fn bin_counter_to_tag(counter: Option<i32>, bins: &Vec<i32>) -> (r: String)
    ensures
        r@ == bin_tag(counter, bins@),
{
    let counter = match counter {
        None => {
            return "none".to_string();
        },
        Some(c) => c,
    };
    let mut start = "-inf".to_string();
    let mut end = "inf".to_string();
    let mut left: usize = bins.len();
    while left > 0
        invariant_except_break
            start@ == "-inf"@,
        invariant
            left <= bins.len(),
            forall|j: int| left <= j < bins.len() ==> counter < bins[j],
            end@ == if left < bins.len() {
                decimal(bins[left as int] as int)
            } else {
                "inf"@
            },
        ensures
            left > 0 ==> counter >= bins[left - 1] && start@ == decimal(bins[left - 1] as int),
            left == 0 ==> start@ == "-inf"@,
        decreases left,
    {
        let bin = bins[left - 1];
        if counter >= bin {
            start = integer_text(bin as i128);
            break;
        }
        end = integer_text(bin as i128);
        left = left - 1;
    }
    proof {
        lemma_bin_index(counter as int, bins@, left - 1);
    }
    start.concat("_").concat(end.as_str())
}

/// A counter lies in the bin that its tag names: it reaches the lower bound and stays
/// below the upper one.
pub proof fn law_counter_lies_in_its_bin(counter: int, bins: Seq<i32>)
    ensures
        -1 <= bin_index(counter, bins) < bins.len(),
        bin_index(counter, bins) >= 0 ==> bins[bin_index(counter, bins)] <= counter,
        forall|i: int| bin_index(counter, bins) < i < bins.len() ==> counter < #[trigger] bins[i],
    decreases bins.len(),
{
    if bins.len() > 0 && counter < bins.last() {
        law_counter_lies_in_its_bin(counter, bins.drop_last());
        assert forall|i: int| bin_index(counter, bins) < i < bins.len() implies counter
            < #[trigger] bins[i] by {
            if i < bins.len() - 1 {
                assert(bins.drop_last()[i] == bins[i]);
            }
        }
    }
}

/// A decimal digit.
pub open spec fn is_digit(c: char) -> bool {
    '0' <= c && c <= '9'
}

proof fn lemma_digits(n: nat)
    ensures
        digits(n).len() > 0,
        forall|i: int| 0 <= i < digits(n).len() ==> is_digit(#[trigger] digits(n)[i]),
    decreases n,
{
    if n >= 10 {
        lemma_digits(n / 10);
    }
}

proof fn lemma_digits_differ(m: nat, n: nat)
    requires
        digits(m) == digits(n),
    ensures
        m == n,
    decreases m,
{
    lemma_digits(m / 10);
    lemma_digits(n / 10);
    assert(digits(m).last() == digit(m % 10));
    assert(digits(n).last() == digit(n % 10));
    assert(m % 10 == n % 10);
    if m >= 10 && n >= 10 {
        assert(digits(m).drop_last() =~= digits(m / 10));
        assert(digits(n).drop_last() =~= digits(n / 10));
        lemma_digits_differ(m / 10, n / 10);
    } else if m >= 10 {
        assert(digits(n).len() == 1);
    } else if n >= 10 {
        assert(digits(m).len() == 1);
    }
}

/// The text of an integer is made of digits and at most a sign before them.
proof fn lemma_decimal(n: int)
    ensures
        decimal(n).len() > 0,
        is_digit(decimal(n).last()),
        forall|i: int|
            0 <= i < decimal(n).len() ==> is_digit(#[trigger] decimal(n)[i]) || (i == 0
                && decimal(n)[i] == '-'),
        n >= 0 ==> is_digit(decimal(n)[0]),
        n < 0 ==> decimal(n)[0] == '-',
{
    if n < 0 {
        lemma_digits((-n) as nat);
    } else {
        lemma_digits(n as nat);
    }
}

/// Different integers have different texts.
proof fn lemma_decimals_differ(m: int, n: int)
    requires
        decimal(m) == decimal(n),
    ensures
        m == n,
{
    lemma_decimal(m);
    lemma_decimal(n);
    if m < 0 {
        assert(decimal(m).skip(1) =~= digits((-m) as nat));
        assert(decimal(n).skip(1) =~= digits((-n) as nat));
        lemma_digits_differ((-m) as nat, (-n) as nat);
    } else {
        lemma_digits_differ(m as nat, n as nat);
    }
}

/// The lower bound in a tag has no underscore.
proof fn lemma_bin_start(counter: int, bins: Seq<i32>)
    ensures
        forall|i: int|
            0 <= i < bin_start(counter, bins).len() ==> #[trigger] bin_start(counter, bins)[i]
                != '_',
{
    law_counter_lies_in_its_bin(counter, bins);
    let index = bin_index(counter, bins);
    if index >= 0 {
        lemma_decimal(bins[index] as int);
    } else {
        reveal_strlit("-inf");
    }
}

proof fn lemma_same_start(a: int, b: int, bins: Seq<i32>)
    requires
        bin_start(a, bins) + "_"@ + bin_end(a, bins) == bin_start(b, bins) + "_"@ + bin_end(
            b,
            bins,
        ),
    ensures
        bin_start(a, bins) == bin_start(b, bins),
{
    reveal_strlit("_");
    lemma_bin_start(a, bins);
    lemma_bin_start(b, bins);
    let x = bin_start(a, bins);
    let y = bin_start(b, bins);
    let tag = x + "_"@ + bin_end(a, bins);
    assert(tag == y + "_"@ + bin_end(b, bins));
    assert(tag[x.len() as int] == '_');
    assert(tag[y.len() as int] == '_');
    if x.len() < y.len() {
        assert(y[x.len() as int] == tag[x.len() as int]);
    }
    if y.len() < x.len() {
        assert(x[y.len() as int] == tag[y.len() as int]);
    }
    assert(x =~= tag.take(x.len() as int));
    assert(y =~= tag.take(y.len() as int));
}

/// Two counters have the same tag exactly if they lie in the same bin, and no counter has
/// the tag that stands for none.
pub proof fn law_tags_tell_bins_apart(a: i32, b: i32, bins: Seq<i32>)
    ensures
        bin_tag(Some(a), bins) == bin_tag(Some(b), bins) <==> bin_index(a as int, bins)
            == bin_index(b as int, bins),
        bin_tag(Some(a), bins) != bin_tag(None, bins),
{
    law_counter_lies_in_its_bin(a as int, bins);
    law_counter_lies_in_its_bin(b as int, bins);
    let i = bin_index(a as int, bins);
    let j = bin_index(b as int, bins);
    if bin_tag(Some(a), bins) == bin_tag(Some(b), bins) {
        lemma_same_start(a as int, b as int, bins);
        reveal_strlit("-inf");
        if i >= 0 {
            lemma_decimal(bins[i] as int);
        }
        if j >= 0 {
            lemma_decimal(bins[j] as int);
        }
        if i >= 0 && j >= 0 {
            lemma_decimals_differ(bins[i] as int, bins[j] as int);
            if i < j {
                assert(a < bins[j]);
            }
            if j < i {
                assert(b < bins[i]);
            }
        }
    }
    reveal_strlit("none");
    reveal_strlit("_");
    let tag = bin_tag(Some(a), bins);
    let k = bin_start(a as int, bins).len() as int;
    assert(tag[k] == '_' && k < tag.len());
    if tag == bin_tag(None, bins) {
        assert("none"@.len() == 4);
        assert("none"@[0] == 'n' && "none"@[1] == 'o' && "none"@[2] == 'n' && "none"@[3] == 'e');
    }
}

/// The number that a text of digits reads as.
pub open spec fn read(text: Seq<char>) -> int
    decreases text.len(),
{
    if text.len() == 0 {
        0
    } else {
        10 * read(text.drop_last()) + (text.last() as int - '0' as int)
    }
}

proof fn lemma_digits_read_back(n: nat)
    ensures
        read(digits(n)) == n,
        n > 0 ==> digits(n)[0] != '0',
    decreases n,
{
    lemma_digits(n);
    if n < 10 {
        assert(digits(n).drop_last() =~= Seq::empty());
        assert(read(Seq::empty()) == 0);
        assert(digits(n).last() as int == '0' as int + n);
    } else {
        assert(digits(n).last() as int == '0' as int + n % 10);
        lemma_digits_read_back(n / 10);
        lemma_digits(n / 10);
        assert(digits(n).drop_last() =~= digits(n / 10));
        assert(digits(n)[0] == digits(n / 10)[0]);
    }
}

/// The text of an integer reads back as that integer: digits without a leading zero, after
/// a minus sign if it is negative.
pub proof fn law_decimal_reads_back(n: int)
    ensures
        n >= 0 ==> read(decimal(n)) == n,
        n < 0 ==> decimal(n)[0] == '-' && read(decimal(n).skip(1)) == -n,
        n > 0 ==> decimal(n)[0] != '0',
        n < 0 ==> decimal(n)[1] != '0',
        forall|i: int|
            (if n < 0 {
                1int
            } else {
                0
            }) <= i < decimal(n).len() ==> '0' <= #[trigger] decimal(n)[i] && decimal(n)[i] <= '9',
        decimal(n).len() > 0,
{
    lemma_decimal(n);
    if n < 0 {
        lemma_digits_read_back((-n) as nat);
        lemma_digits((-n) as nat);
        assert(decimal(n).skip(1) =~= digits((-n) as nat));
    } else {
        lemma_digits_read_back(n as nat);
    }
}

/// The tag of a counter names the bound that it reaches and the next one, which it does
/// not reach; below all bounds it begins with `-inf`, from the last one on it ends with
/// `inf`.
pub proof fn law_tag_names_the_bounds(counter: i32, bins: Seq<i32>, i: int)
    requires
        -1 <= i < bins.len(),
        i >= 0 ==> bins[i] <= counter,
        forall|j: int| i < j < bins.len() ==> counter < #[trigger] bins[j],
    ensures
        bin_tag(Some(counter), bins) == (if i >= 0 {
            decimal(bins[i] as int)
        } else {
            "-inf"@
        }) + "_"@ + (if i + 1 < bins.len() {
            decimal(bins[i + 1] as int)
        } else {
            "inf"@
        }),
        bin_tag(None, bins) == "none"@,
{
    lemma_bin_index(counter as int, bins, i);
}

} // verus!
