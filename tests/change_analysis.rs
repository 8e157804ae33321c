use lirah_pty::change_analysis::analyze_file_patterns;

fn v(files: &[&str]) -> Vec<String> {
    files.iter().map(|s| s.to_string()).collect()
}

#[test]
fn single_area() {
    let (title, desc) = analyze_file_patterns(&v(&["src/api/users.ts"]));
    assert_eq!(title, "API implementation");
    assert_eq!(desc, Some("Changes configuration updates".to_string()));
}

#[test]
fn several_areas_in_fixed_order() {
    let (title, desc) = analyze_file_patterns(&v(&["api/route.ts", "styles/main.css", "models/user.py"]));
    assert_eq!(title, "API, Styling and Database implementation");
    assert_eq!(desc, None);
    let (title, _) = analyze_file_patterns(&v(&["src/components/Button.tsx", "src/hooks/useAuth.ts"]));
    assert_eq!(title, "UI and Logic implementation");
}

#[test]
fn feature_from_directory() {
    let (title, desc) = analyze_file_patterns(&v(&["billing/invoice.rs", "billing/tax.rs"]));
    assert_eq!(title, "Implement billing");
    assert_eq!(desc, None);
    let (title, _) = analyze_file_patterns(&v(&["billing/invoice.rs", "search/index.rs"]));
    assert_eq!(title, "Implement billing and related features");
}

#[test]
fn generic_title_and_extras() {
    let (title, desc) = analyze_file_patterns(&v(&["README.md"]));
    assert_eq!(title, "Code changes");
    assert_eq!(desc, Some("Changes includes documentation".to_string()));
    let (title, desc) = analyze_file_patterns(&v(&["tests/parser_test.rs", ".github/ci.yml"]));
    assert_eq!(title, "Implement tests");
    assert_eq!(desc, Some("Changes includes tests, configuration updates".to_string()));
    let (title, desc) = analyze_file_patterns(&Vec::new());
    assert_eq!(title, "Code changes");
    assert_eq!(desc, None);
}
