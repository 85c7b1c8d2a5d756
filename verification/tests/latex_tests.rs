use font_metrics::latex::{generate_latex_source, FitConfig};

fn sample_config() -> FitConfig {
    FitConfig {
        font_name: String::from("Tahoma"),
        font_directory: String::from("C:/Windows/Fonts"),
        font_size: 12,
        text_width: 32,
        language: String::from("english"),
        sample_text: String::from("Hello, world."),
    }
}

#[test]
fn latex_source_matches_the_template_exactly() {
    let source = generate_latex_source(&sample_config());
    let expected = format!(
        "\n\\documentclass{{article}}\n\\usepackage{{fontspec, microtype, polyglossia}}\n\\pagestyle{{empty}}\n\\setmainfont{{{}}}[OpticalSize = 0, Path = {}/]\n\\setdefaultlanguage{{{}}}\n\\setlength{{\\textwidth}}{{{}pc}}\n\\begin{{document}}\n\\fontsize{{{}pt}}{{{}pt}}\\selectfont\n\\noindent\n{}\n\\end{{document}}\n    ",
        "Tahoma", "C:/Windows/Fonts", "english", 32, 12, 12, "Hello, world."
    );
    assert_eq!(source, expected);
}

#[test]
fn latex_source_carries_every_field() {
    let source = generate_latex_source(&sample_config());
    assert!(source.contains("\\setmainfont{Tahoma}"));
    assert!(source.contains("Path = C:/Windows/Fonts/"));
    assert!(source.contains("\\setdefaultlanguage{english}"));
    assert!(source.contains("\\setlength{\\textwidth}{32pc}"));
    assert!(source.contains("\\fontsize{12pt}{12pt}"));
    assert!(source.contains("Hello, world."));
}

#[test]
fn sizes_are_rendered_in_decimal() {
    let mut config = sample_config();
    config.font_size = 0;
    config.text_width = -7;
    let source = generate_latex_source(&config);
    assert!(source.contains("\\fontsize{0pt}{0pt}"));
    assert!(source.contains("\\setlength{\\textwidth}{-7pc}"));
    config.font_size = 1048576;
    let source = generate_latex_source(&config);
    assert!(source.contains("\\fontsize{1048576pt}{1048576pt}"));
}

#[test]
fn recomputing_the_source_is_identical() {
    assert_eq!(
        generate_latex_source(&sample_config()),
        generate_latex_source(&sample_config())
    );
}
