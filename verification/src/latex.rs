//! The typeset sample page: LaTeX source for the fit test, generated from
//! the test configuration.
use vstd::prelude::*;

verus! {

use vstd::string::StringExecFns;

/// Everything the fit test needs to know about one sample page: the font's
/// name and directory, the point size, the printable width in picas, the
/// language tag for hyphenation, and the sample text to set. All fields are
/// immutable inputs owned by the caller.
#[derive(Clone, Debug)]
pub struct FitConfig {
    pub font_name: String,
    pub font_directory: String,
    pub font_size: i32,
    pub text_width: i32,
    pub language: String,
    pub sample_text: String,
}

/// The decimal digit character for one digit value.
pub open spec fn decimal_digit(d: int) -> char
    recommends
        0 <= d <= 9,
{
    if d == 0 {
        '0'
    } else if d == 1 {
        '1'
    } else if d == 2 {
        '2'
    } else if d == 3 {
        '3'
    } else if d == 4 {
        '4'
    } else if d == 5 {
        '5'
    } else if d == 6 {
        '6'
    } else if d == 7 {
        '7'
    } else if d == 8 {
        '8'
    } else {
        '9'
    }
}

/// The decimal digits of a positive number, most significant first; empty
/// for zero.
pub open spec fn spec_decimal_magnitude(n: int) -> Seq<char>
    recommends
        0 <= n,
    decreases n,
{
    if n <= 0 {
        Seq::empty()
    } else {
        spec_decimal_magnitude(n / 10) + seq![decimal_digit(n % 10)]
    }
}

/// The decimal rendering of a signed number, as the standard formatter
/// writes it.
pub open spec fn spec_decimal(n: int) -> Seq<char> {
    if n == 0 {
        seq!['0']
    } else if n < 0 {
        seq!['-'] + spec_decimal_magnitude(-n)
    } else {
        spec_decimal_magnitude(n)
    }
}

fn digit_str(d: u32) -> (r: &'static str)
    requires
        d <= 9,
    ensures
        r@ == seq![decimal_digit(d as int)],
{
    proof {
        reveal_strlit("0");
        reveal_strlit("1");
        reveal_strlit("2");
        reveal_strlit("3");
        reveal_strlit("4");
        reveal_strlit("5");
        reveal_strlit("6");
        reveal_strlit("7");
        reveal_strlit("8");
        reveal_strlit("9");
    }
    if d == 0 {
        "0"
    } else if d == 1 {
        "1"
    } else if d == 2 {
        "2"
    } else if d == 3 {
        "3"
    } else if d == 4 {
        "4"
    } else if d == 5 {
        "5"
    } else if d == 6 {
        "6"
    } else if d == 7 {
        "7"
    } else if d == 8 {
        "8"
    } else {
        "9"
    }
}

fn push_decimal_magnitude(out: &mut String, m: u32)
    ensures
        final(out)@ == old(out)@ + spec_decimal_magnitude(m as int),
    decreases m,
{
    if m == 0 {
        proof {
            assert(out@ =~= old(out)@ + spec_decimal_magnitude(0));
        }
    } else {
        push_decimal_magnitude(out, m / 10);
        out.append(digit_str(m % 10));
        proof {
            assert(out@ =~= old(out)@ + spec_decimal_magnitude(m as int));
        }
    }
}

fn push_decimal(out: &mut String, n: i32)
    ensures
        final(out)@ == old(out)@ + spec_decimal(n as int),
{
    if n == 0 {
        out.append("0");
        proof {
            reveal_strlit("0");
            assert(out@ =~= old(out)@ + spec_decimal(0));
        }
    } else if n < 0 {
        out.append("-");
        let m: u32 = (-(n as i64)) as u32;
        push_decimal_magnitude(out, m);
        proof {
            reveal_strlit("-");
            assert("-"@ =~= seq!['-']);
            assert(out@ =~= old(out)@ + spec_decimal(n as int));
        }
    } else {
        push_decimal_magnitude(out, n as u32);
    }
}

/// The complete LaTeX source of the sample page a configuration describes.
pub open spec fn spec_latex_source(c: FitConfig) -> Seq<char> {
    "\n\\documentclass{article}\n\\usepackage{fontspec, microtype, polyglossia}\n\\pagestyle{empty}\n\\setmainfont{"@
        + c.font_name@ + "}[OpticalSize = 0, Path = "@ + c.font_directory@
        + "/]\n\\setdefaultlanguage{"@ + c.language@ + "}\n\\setlength{\\textwidth}{"@
        + spec_decimal(c.text_width as int) + "pc}\n\\begin{document}\n\\fontsize{"@
        + spec_decimal(c.font_size as int) + "pt}{"@ + spec_decimal(c.font_size as int)
        + "pt}\\selectfont\n\\noindent\n"@ + c.sample_text@ + "\n\\end{document}\n    "@
}

/// Writes the LaTeX source for one fit-test sample page: a single page in
/// the configured font, size, language and width, carrying the sample
/// text. The typesetting itself is the collaborator's job; this function
/// only decides what it is asked to set.
pub fn generate_latex_source(config: &FitConfig) -> (source: String)
    ensures
        source@ == spec_latex_source(*config),
{
    let mut out = String::new();
    out.append(
        "\n\\documentclass{article}\n\\usepackage{fontspec, microtype, polyglossia}\n\\pagestyle{empty}\n\\setmainfont{",
    );
    out.append(config.font_name.as_str());
    out.append("}[OpticalSize = 0, Path = ");
    out.append(config.font_directory.as_str());
    out.append("/]\n\\setdefaultlanguage{");
    out.append(config.language.as_str());
    out.append("}\n\\setlength{\\textwidth}{");
    push_decimal(&mut out, config.text_width);
    out.append("pc}\n\\begin{document}\n\\fontsize{");
    push_decimal(&mut out, config.font_size);
    out.append("pt}{");
    push_decimal(&mut out, config.font_size);
    out.append("pt}\\selectfont\n\\noindent\n");
    out.append(config.sample_text.as_str());
    out.append("\n\\end{document}\n    ");
    proof {
        assert(out@ =~= spec_latex_source(*config));
    }
    out
}

} // verus!
