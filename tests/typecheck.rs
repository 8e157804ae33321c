use lirah_pty::typecheck::{
    get_tsc_command, is_checkable_extension, parse_tsc_output, parse_usize, summarize_type_check,
};

#[test]
fn diagnostics_are_parsed() {
    let out = "src/a.ts(12,5): error TS2322: Type 'string' is not assignable to type 'number'.\r\n\
               noise line\n\
               src/b.tsx(3,14): warning TS6133: 'x' is declared but never used.\n";
    let errs = parse_tsc_output(out);
    assert_eq!(errs.len(), 2);
    assert_eq!(errs[0].line, 12);
    assert_eq!(errs[0].column, 5);
    assert_eq!(errs[0].severity, "error");
    assert_eq!(errs[0].code, "TS2322");
    assert_eq!(errs[0].message, "Type 'string' is not assignable to type 'number'.");
    assert_eq!(errs[1].line, 3);
    assert_eq!(errs[1].severity, "warning");
    assert_eq!(errs[1].code, "TS6133");
}

#[test]
fn malformed_lines_are_skipped() {
    assert!(parse_tsc_output("").is_empty());
    assert!(parse_tsc_output("a.ts(x,1): error TS1: m").is_empty());
    assert!(parse_tsc_output("a.ts(1,2): error TS1:").is_empty());
    assert!(parse_tsc_output("a.ts(1 2): error TS1: m").is_empty());
    assert!(parse_tsc_output("): a.ts(1,2) error TS1: m").is_empty());
    let one = parse_tsc_output("a.ts(+7,2): error TS1:: m n");
    assert_eq!(one.len(), 1);
    assert_eq!(one[0].line, 7);
    assert_eq!(one[0].code, "TS1");
    assert_eq!(one[0].message, "m n");
}

#[test]
fn usize_reading() {
    let v = |s: &str| s.chars().collect::<Vec<char>>();
    assert_eq!(parse_usize(&v("42")), Some(42));
    assert_eq!(parse_usize(&v("+42")), Some(42));
    assert_eq!(parse_usize(&v("+")), None);
    assert_eq!(parse_usize(&v("")), None);
    assert_eq!(parse_usize(&v("-1")), None);
    assert_eq!(parse_usize(&v("18446744073709551615")), Some(usize::MAX));
    assert_eq!(parse_usize(&v("18446744073709551616")), None);
}

#[test]
fn result_counts() {
    let errs = parse_tsc_output(
        "a.ts(1,1): error TS1: x\na.ts(2,1): warning TS2: y\na.ts(3,1): error TS3: z\n",
    );
    let r = summarize_type_check("a.ts".to_string(), errs, 17);
    assert_eq!(r.error_count, 2);
    assert_eq!(r.warning_count, 1);
    assert!(!r.success);
    assert_eq!(r.execution_time_ms, 17);
    let ok = summarize_type_check("b.ts".to_string(), Vec::new(), 1);
    assert!(ok.success);
}

#[test]
fn extensions() {
    assert!(is_checkable_extension("TSX"));
    assert!(is_checkable_extension("js"));
    assert!(!is_checkable_extension("rs"));
    assert!(!is_checkable_extension(""));
}

#[test]
fn tsc_command_line() {
    let (program, args) = get_tsc_command(false, "src/a.ts");
    assert_eq!(program, "tsc");
    assert_eq!(args, vec!["--noEmit", "--skipLibCheck", "--jsx", "react-jsx", "src/a.ts"]);
    let (program, _) = get_tsc_command(true, "a.ts");
    assert_eq!(program, "tsc.cmd");
}
