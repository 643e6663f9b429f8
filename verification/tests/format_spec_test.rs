use profiler_render::label::{parse_format, FormatPlan};

fn fv(spec: &str, v: f64) -> String {
    match parse_format(spec) {
        FormatPlan::Default => format!("{v:.2}"),
        FormatPlan::Literal(text) => text,
        FormatPlan::Number(f) => {
            let prec = f.precision;
            let number = if f.scientific && f.plus {
                format!("{v:+.prec$e}")
            } else if f.scientific {
                format!("{v:.prec$e}")
            } else if f.plus {
                format!("{v:+.prec$}")
            } else {
                format!("{v:.prec$}")
            };
            f.dress(&number)
        }
    }
}

#[test]
fn format_value_python_specs() {
    assert_eq!(fv("{:+.2f}", 1.23456), "+1.23");
    assert_eq!(fv("{:.1f}", 1.23456), "1.2");
    assert_eq!(fv("{:+.2f}", -2.5), "-2.50");
    assert_eq!(fv("", 1.23456), "1.23");
}

#[test]
fn type_letter_counts_without_a_precision() {
    assert_eq!(fv("{:e}", 1234.5), "1.23e3");
    assert_eq!(fv("{}", 1.5), "1.50");
    assert_eq!(fv("a{:.x}b", 1.5), "a1.50b");
}

#[test]
fn fixed_precision_rounds() {
    assert_eq!(fv("{:.1f}", 1.234), "1.2");
    assert_eq!(fv("{:.2f}", 1.234), "1.23");
    assert_eq!(fv("{:.0f}", 1.6), "2");
}

#[test]
fn sign_flag_forces_plus() {
    assert_eq!(fv("{:+.2f}", 1.5), "+1.50");
    assert_eq!(fv("{:+.2f}", -0.5), "-0.50");
}

#[test]
fn scientific_notation() {
    assert_eq!(fv("{:.3e}", 1234.5), "1.234e3");
    assert_eq!(fv("{:+.2e}", 0.01), "+1.00e-2");
}

#[test]
fn literal_suffix_concatenated() {
    assert_eq!(fv("{:+.1f}°", 12.34), "+12.3°");
    assert_eq!(fv("{:.2f} m/s", 3.42159), "3.42 m/s");
    assert_eq!(fv("{:.3e} m", 1234.5), "1.234e3 m");
}

#[test]
fn empty_spec_uses_default() {
    assert_eq!(fv("", 1.23456), "1.23");
}

#[test]
fn unbraced_spec_kept_verbatim() {
    assert_eq!(fv("static label", 42.0), "static label");
}

#[test]
fn missing_close_brace_does_not_panic() {
    let s = fv("{:.1f m", 1.0);
    assert!(!s.is_empty());
}

#[test]
fn width_is_a_minimum() {
    assert_eq!(fv("{:8.2f}", 1.5), "    1.50");
    assert_eq!(fv("{:8f}", 1.5), "    1.50");
    assert_eq!(fv("{:8}", 1.5), "    1.50");
    assert_eq!(fv("<{:+08.1f}>", 2.0), "<    +2.0>");
    assert_eq!(fv("{:3.2f}", 1234.5), "1234.50");
    assert_eq!(fv("{:x.2f}", 1.5), "1.50");
}
