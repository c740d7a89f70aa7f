use vectex::cli::parse_args;
use vectex::colorize::process_svg;
use vectex::pipeline::{Action, Outcome, Pipeline, Stage};
use vectex::template::wrap_latex;

fn args(a: &[&str]) -> Vec<String> {
    a.iter().map(|s| s.to_string()).collect()
}

fn count(haystack: &str, needle: &str) -> usize {
    haystack.matches(needle).count()
}

#[test]
fn wrap_holds_expression_in_display_math() {
    let d = wrap_latex("x^2");
    assert!(d.contains("$$ x^2 $$"));
    assert!(d.starts_with("\\documentclass[12pt]{article}"));
    assert!(d.contains("\\thispagestyle{empty}"));
    let b = d.find("\\begin{document}").unwrap();
    let m = d.find("$$ x^2 $$").unwrap();
    let e = d.find("\\end{document}").unwrap();
    assert!(b < m && m < e);
    assert!(d.ends_with("\\end{document}"));
}

#[test]
fn wrap_exact_text() {
    assert_eq!(
        wrap_latex("a+b"),
        "\\documentclass[12pt]{article}\n        \\thispagestyle{empty}\n        \\begin{document}\n        $$ a+b $$\n        \\end{document}"
    );
}

#[test]
fn wrap_empty_expression_is_complete() {
    let d = wrap_latex("");
    assert!(d.contains("$$  $$"));
    assert!(d.contains("\\begin{document}"));
    assert!(d.ends_with("\\end{document}"));
}

#[test]
fn wrap_keeps_input_verbatim() {
    let d = wrap_latex("\\frac{1}{2} % }{");
    assert!(d.contains("$$ \\frac{1}{2} % }{ $$"));
}

#[test]
fn colorize_path_and_rect() {
    assert_eq!(
        process_svg("<path d=\"M0,0\"/><rect width=\"1\"/>", "#ff0000"),
        "<path stroke=\"#ff0000\" fill=\"#ff0000\" stroke-width=\"0\" d=\"M0,0\"/><rect fill=\"#ff0000\" width=\"1\"/>"
    );
}

#[test]
fn colorize_keeps_structure() {
    let t = "<svg><g><path d='a'/><path d='b'/><rect x='1'/><path d='c'/></g></svg>";
    let c = "#123456";
    let out = process_svg(t, c);
    assert_eq!(count(&out, "<path stroke=\"#123456\" fill=\"#123456\" stroke-width=\"0\""), 3);
    assert_eq!(count(&out, "<rect fill=\"#123456\""), 1);
    assert_eq!(count(&out, "<"), count(t, "<"));
}

#[test]
fn colorize_is_deterministic() {
    let t = "<path d=\"M1,2\"/><rect/><text>x</text>";
    assert_eq!(process_svg(t, "blue"), process_svg(t, "blue"));
}

#[test]
fn colorize_without_openers_is_identity() {
    let t = "<svg><g id=\"x\">héllo ✓</g></svg>";
    assert_eq!(process_svg(t, "#000000"), t);
    assert_eq!(process_svg("", "#000000"), "");
}

#[test]
fn colorize_replaces_openers_anywhere() {
    assert_eq!(
        process_svg("<!-- <rect --><pathx", "red"),
        "<!-- <rect fill=\"red\" --><path stroke=\"red\" fill=\"red\" stroke-width=\"0\"x"
    );
}

#[test]
fn args_filename_only_gives_black() {
    let inv = parse_args(&args(&["vectex", "out"])).unwrap();
    assert_eq!(inv.filename, "out");
    assert_eq!(inv.color, "#000000");
    let explicit = parse_args(&args(&["vectex", "out", "#000000"])).unwrap();
    assert_eq!(inv.filename, explicit.filename);
    assert_eq!(inv.color, explicit.color);
}

#[test]
fn args_with_color() {
    let inv = parse_args(&args(&["vectex", "eq", "#ff0000"])).unwrap();
    assert_eq!(inv.filename, "eq");
    assert_eq!(inv.color, "#ff0000");
}

#[test]
fn args_wrong_count_is_usage_error() {
    assert!(parse_args(&args(&["vectex"])).is_none());
    assert!(parse_args(&args(&[])).is_none());
    assert!(parse_args(&args(&["vectex", "a", "b", "c"])).is_none());
}

fn path_of(a: &Action) -> Option<String> {
    match a {
        Action::Write { path, .. } | Action::Remove { path } | Action::Read { path } => {
            Some(path.clone())
        }
        _ => None,
    }
}

#[test]
fn successful_run_removes_artifacts() {
    let mut p = Pipeline::new("out", "#000000", "x^2");
    let svg = "<svg><path d=\"M0,0\"/><rect width=\"2\"/></svg>";
    let mut removed: Vec<String> = Vec::new();
    let mut steps = 0;
    loop {
        let a = p.action();
        steps += 1;
        assert!(steps <= 10);
        let outcome = match &a {
            Action::Write { path, contents } => {
                assert!(!removed.contains(path));
                if path == "out.tex" {
                    assert!(contents.contains("$$ x^2 $$"));
                } else {
                    assert_eq!(path, "out");
                    assert_eq!(
                        contents,
                        "<svg><path stroke=\"#000000\" fill=\"#000000\" stroke-width=\"0\" d=\"M0,0\"/><rect fill=\"#000000\" width=\"2\"/></svg>"
                    );
                }
                Outcome::Done
            }
            Action::Run { program, args } => {
                assert!(removed.is_empty());
                if program == "latex" {
                    assert_eq!(args, &vec!["out.tex".to_string()]);
                } else {
                    assert_eq!(program, "dvisvgm");
                    assert_eq!(
                        args,
                        &vec![
                            "--no-fonts".to_string(),
                            "--scale=20".to_string(),
                            "--exact".to_string(),
                            "out.dvi".to_string(),
                            "-o".to_string(),
                            "out".to_string(),
                        ]
                    );
                }
                Outcome::Done
            }
            Action::Remove { path } => {
                removed.push(path.clone());
                Outcome::Done
            }
            Action::Read { path } => {
                assert_eq!(path, "out");
                Outcome::Text(svg.to_string())
            }
            Action::Finish => break,
            Action::Abort { .. } => panic!("run stopped"),
        };
        p.step(outcome);
    }
    assert_eq!(steps, 10);
    assert_eq!(p.stage(), Stage::Done);
    assert_eq!(removed, vec!["out.tex", "out.aux", "out.dvi", "out.log"]);
}

#[test]
fn failed_tool_stops_run() {
    let mut p = Pipeline::new("f", "#000000", "y");
    p.step(Outcome::Done);
    assert_eq!(p.stage(), Stage::Typeset);
    p.step(Outcome::Failed);
    assert!(matches!(p.action(), Action::Abort { stage: Stage::Typeset }));
    p.step(Outcome::Done);
    assert!(matches!(p.action(), Action::Abort { stage: Stage::Typeset }));
}

#[test]
fn read_without_text_stops_run() {
    let mut p = Pipeline::new("f", "#000000", "y");
    for _ in 0..7 {
        p.step(Outcome::Done);
    }
    assert_eq!(p.stage(), Stage::ReadSvg);
    assert!(matches!(p.action(), Action::Read { .. }));
    p.step(Outcome::Done);
    assert!(matches!(p.action(), Action::Abort { stage: Stage::ReadSvg }));
}

#[test]
fn failed_removal_names_the_stage() {
    let mut p = Pipeline::new("f", "#000000", "y");
    for _ in 0..4 {
        p.step(Outcome::Done);
    }
    assert_eq!(p.stage(), Stage::RemoveAux);
    assert_eq!(path_of(&p.action()), Some("f.aux".to_string()));
    p.step(Outcome::Failed);
    assert!(matches!(p.action(), Action::Abort { stage: Stage::RemoveAux }));
}

#[test]
fn first_action_writes_source() {
    let p = Pipeline::new("doc", "red", "x");
    match p.action() {
        Action::Write { path, contents } => {
            assert_eq!(path, "doc.tex");
            assert_eq!(contents, wrap_latex("x"));
        }
        _ => panic!("expected a write"),
    }
}
