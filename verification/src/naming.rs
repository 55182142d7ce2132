//! Names of the image files: every parameter of a run appears in the name of
//! its file, and the members of a sweep are told apart by their step index.

use vstd::prelude::*;
use vstd::string::*;

verus! {

/// The directory, relative to the working directory, that holds the images of
/// a sweep.
pub const STEPS_DIR: &'static str = "steps";

/// The character of the decimal digit `d`.
pub open spec fn digit(d: nat) -> char {
    if d == 0 {
        '0'
    } else if d == 1 {
        '1'
    } else if d == 2 {
        '2'
    } else if d == 3 {
        '3'
    } else if d == 4 {
        '4'
    } else if d == 5 {
        '5'
    } else if d == 6 {
        '6'
    } else if d == 7 {
        '7'
    } else if d == 8 {
        '8'
    } else {
        '9'
    }
}

/// Whether `c` is a decimal digit.
pub open spec fn is_digit(c: char) -> bool {
    '0' <= c <= '9'
}

/// The number that a digit character stands for.
pub open spec fn digit_value(c: char) -> nat {
    (c as nat - '0' as nat) as nat
}

/// The decimal numeral of `n`, without leading zeros.
pub open spec fn decimal(n: nat) -> Seq<char>
    decreases n,
{
    if n < 10 {
        seq![digit(n)]
    } else {
        decimal(n / 10).push(digit(n % 10))
    }
}

/// The number that a sequence of digits denotes.
pub open spec fn decimal_value(s: Seq<char>) -> nat
    decreases s.len(),
{
    if s.len() == 0 {
        0
    } else {
        decimal_value(s.drop_last()) * 10 + digit_value(s.last())
    }
}

/// A numeral is never empty and holds digits only.
pub proof fn lemma_decimal_digits(n: nat)
    ensures
        decimal(n).len() >= 1,
        forall|i: int| 0 <= i < decimal(n).len() ==> is_digit(#[trigger] decimal(n)[i]),
    decreases n,
{
    if n >= 10 {
        lemma_decimal_digits(n / 10);
    }
}

/// Reading a numeral gives back the number it was written for.
pub proof fn lemma_decimal_value(n: nat)
    ensures
        decimal_value(decimal(n)) == n,
    decreases n,
{
    if n < 10 {
        assert(decimal(n).drop_last() =~= Seq::<char>::empty());
        assert(decimal_value(decimal(n).drop_last()) == 0);
        assert(decimal(n).last() == digit(n));
    } else {
        lemma_decimal_value(n / 10);
        assert(decimal(n).drop_last() =~= decimal(n / 10));
        assert(decimal(n).last() == digit(n % 10));
    }
}

/// Different numbers have different numerals.
pub proof fn lemma_decimal_injective(m: nat, n: nat)
    requires
        decimal(m) == decimal(n),
    ensures
        m == n,
{
    lemma_decimal_value(m);
    lemma_decimal_value(n);
}

/// The one-character text of the decimal digit `d`.
fn digit_text(d: u32) -> (t: &'static str)
    requires
        d < 10,
    ensures
        t@ == seq![digit(d as nat)],
{
    proof {
        reveal_strlit("0");
        reveal_strlit("1");
        reveal_strlit("2");
        reveal_strlit("3");
        reveal_strlit("4");
        reveal_strlit("5");
        reveal_strlit("6");
        reveal_strlit("7");
        reveal_strlit("8");
        reveal_strlit("9");
    }
    let t = match d {
        0 => "0",
        1 => "1",
        2 => "2",
        3 => "3",
        4 => "4",
        5 => "5",
        6 => "6",
        7 => "7",
        8 => "8",
        _ => "9",
    };
    assert(t@ =~= seq![digit(d as nat)]);
    t
}

/// Appends the decimal numeral of `n` to `text`.
fn append_decimal(text: &mut String, n: u32)
    ensures
        final(text)@ == old(text)@ + decimal(n as nat),
    decreases n,
{
    if n >= 10 {
        append_decimal(text, n / 10);
    }
    text.append(digit_text(n % 10));
    proof {
        let before = old(text)@;
        if n >= 10 {
            assert(before + decimal((n / 10) as nat) + seq![digit((n % 10) as nat)] =~= before
                + decimal(n as nat));
        }
    }
}

/// The part of a file name that gives the size of the image and the
/// supersampling factor.
pub open spec fn size_tag(width: u32, height: u32, factor: u32) -> Seq<char> {
    "_"@ + decimal(width as nat) + "x"@ + decimal(height as nat) + "_f"@ + decimal(factor as nat)
}

/// Appends `size_tag(width, height, factor)` to `text`.
fn append_size_tag(text: &mut String, width: u32, height: u32, factor: u32)
    ensures
        final(text)@ == old(text)@ + size_tag(width, height, factor),
{
    text.append("_");
    append_decimal(text, width);
    text.append("x");
    append_decimal(text, height);
    text.append("_f");
    append_decimal(text, factor);
    assert(text@ =~= old(text)@ + size_tag(width, height, factor));
}

/// The name of the file of a single image. The real-valued parameters come
/// as the texts that the caller has written them in.
pub open spec fn spec_image_file_name(
    a: Seq<char>,
    b: Seq<char>,
    x0: Seq<char>,
    y0: Seq<char>,
    n: u32,
    width: u32,
    height: u32,
    factor: u32,
) -> Seq<char> {
    "henon_"@ + a + "_"@ + b + "_"@ + x0 + "_"@ + y0 + "_"@ + decimal(n as nat) + size_tag(
        width,
        height,
        factor,
    ) + ".png"@
}

/// The name of the file of a single image: `henon_`, then the map parameters
/// `a` and `b`, the start `x0` and `y0`, the iteration count, the image size
/// as width `x` height and the factor behind an `f`, joined by underscores,
/// then `.png`.
pub fn image_file_name(
    a: &str,
    b: &str,
    x0: &str,
    y0: &str,
    n: u32,
    width: u32,
    height: u32,
    factor: u32,
) -> (name: String)
    ensures
        name@ == spec_image_file_name(a@, b@, x0@, y0@, n, width, height, factor),
{
    let mut name = String::from_str("henon_");
    name.append(a);
    name.append("_");
    name.append(b);
    name.append("_");
    name.append(x0);
    name.append("_");
    name.append(y0);
    name.append("_");
    append_decimal(&mut name, n);
    append_size_tag(&mut name, width, height, factor);
    name.append(".png");
    name
}

/// What precedes the step index in the name of a sweep's file.
pub open spec fn series_stem(
    a: Seq<char>,
    b: Seq<char>,
    x0: Seq<char>,
    y0: Seq<char>,
    n: u32,
    width: u32,
    height: u32,
    factor: u32,
) -> Seq<char> {
    STEPS_DIR@ + "/henon_a"@ + a + "_b"@ + b + "_x"@ + x0 + "_y"@ + y0 + "_n"@ + decimal(n as nat)
        + size_tag(width, height, factor)
}

/// The path of the file of one member of a sweep.
pub open spec fn spec_series_file_name(
    a: Seq<char>,
    b: Seq<char>,
    x0: Seq<char>,
    y0: Seq<char>,
    n: u32,
    width: u32,
    height: u32,
    factor: u32,
    step: u32,
) -> Seq<char> {
    series_stem(a, b, x0, y0, n, width, height, factor) + "_step"@ + decimal(step as nat)
        + ".png"@
}

/// The path of the file of one member of a sweep: under `STEPS_DIR`, a name
/// that tags each parameter with a letter and ends in the step index.
pub fn series_file_name(
    a: &str,
    b: &str,
    x0: &str,
    y0: &str,
    n: u32,
    width: u32,
    height: u32,
    factor: u32,
    step: u32,
) -> (name: String)
    ensures
        name@ == spec_series_file_name(a@, b@, x0@, y0@, n, width, height, factor, step),
{
    let mut name = String::from_str(STEPS_DIR);
    name.append("/henon_a");
    name.append(a);
    name.append("_b");
    name.append(b);
    name.append("_x");
    name.append(x0);
    name.append("_y");
    name.append(y0);
    name.append("_n");
    append_decimal(&mut name, n);
    append_size_tag(&mut name, width, height, factor);
    name.append("_step");
    append_decimal(&mut name, step);
    name.append(".png");
    name
}

/// Two names that end in `_step`, a numeral and `.png` are equal only if the
/// numerals are those of the same number, whatever precedes them.
pub proof fn lemma_step_suffix_distinct(
    first: Seq<char>,
    first_step: nat,
    second: Seq<char>,
    second_step: nat,
)
    requires
        first_step != second_step,
    ensures
        first + "_step"@ + decimal(first_step) + ".png"@ != second + "_step"@ + decimal(
            second_step,
        ) + ".png"@,
{
    reveal_strlit("_step");
    reveal_strlit(".png");
    let tag = "_step"@;
    let end = ".png"@;
    let d1 = decimal(first_step);
    let d2 = decimal(second_step);
    let n1 = first + tag + d1 + end;
    let n2 = second + tag + d2 + end;
    lemma_decimal_digits(first_step);
    lemma_decimal_digits(second_step);
    if n1 == n2 {
        let len = n1.len() as int;
        if d1.len() == d2.len() {
            assert forall|i: int| 0 <= i < d1.len() implies d1[i] == d2[i] by {
                assert(n1[len - 4 - d1.len() + i] == d1[i]);
                assert(n2[len - 4 - d2.len() + i] == d2[i]);
            }
            assert(d1 =~= d2);
            lemma_decimal_injective(first_step, second_step);
        } else if d1.len() < d2.len() {
            let at = len - 4 - d1.len() - 1;
            assert(n1[at] == tag[4]);
            assert(n2[at] == d2[d2.len() - d1.len() - 1]);
            assert(is_digit(d2[d2.len() - d1.len() - 1]));
        } else {
            let at = len - 4 - d2.len() - 1;
            assert(n2[at] == tag[4]);
            assert(n1[at] == d1[d1.len() - d2.len() - 1]);
            assert(is_digit(d1[d1.len() - d2.len() - 1]));
        }
    }
}

/// Two members of a sweep with different step indices never share a file,
/// whatever their other parameters are.
pub proof fn lemma_series_names_distinct(
    first_a: Seq<char>,
    first_b: Seq<char>,
    first_x0: Seq<char>,
    first_y0: Seq<char>,
    first_n: u32,
    first_width: u32,
    first_height: u32,
    first_factor: u32,
    first_step: u32,
    second_a: Seq<char>,
    second_b: Seq<char>,
    second_x0: Seq<char>,
    second_y0: Seq<char>,
    second_n: u32,
    second_width: u32,
    second_height: u32,
    second_factor: u32,
    second_step: u32,
)
    requires
        first_step != second_step,
    ensures
        spec_series_file_name(
            first_a,
            first_b,
            first_x0,
            first_y0,
            first_n,
            first_width,
            first_height,
            first_factor,
            first_step,
        ) != spec_series_file_name(
            second_a,
            second_b,
            second_x0,
            second_y0,
            second_n,
            second_width,
            second_height,
            second_factor,
            second_step,
        ),
{
    lemma_step_suffix_distinct(
        series_stem(
            first_a,
            first_b,
            first_x0,
            first_y0,
            first_n,
            first_width,
            first_height,
            first_factor,
        ),
        first_step as nat,
        series_stem(
            second_a,
            second_b,
            second_x0,
            second_y0,
            second_n,
            second_width,
            second_height,
            second_factor,
        ),
        second_step as nat,
    );
}

} // verus!
