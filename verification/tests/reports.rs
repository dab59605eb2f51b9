use lotus::report_format::{format_report, format_table, AllReports as ShownReports, ReportValue};
use lotus::reports::{AllReports, CveReport, GeneralReport, LotusReport, OutReport, ReportMatchers};

#[test]
fn cve_report_init_and_setters() {
    let mut r = CveReport::init();
    assert!(r.name.is_none() && r.risk.is_none() && r.url.is_none() && r.description.is_none());
    assert!(r.matchers.is_empty());
    r.set_name("CVE-2021-0001".to_string());
    r.set_risk("high".to_string());
    r.add_matcher("200".to_string(), 4);
    r.add_matcher("x".to_string(), 9);
    assert_eq!(r.name.as_deref(), Some("CVE-2021-0001"));
    assert_eq!(r.risk.as_deref(), Some("high"));
    assert_eq!(
        r.matchers,
        vec![ReportMatchers::StatusCode("200".to_string()), ReportMatchers::General("x".to_string())]
    );
}

#[test]
fn matcher_types() {
    assert_eq!(ReportMatchers::from_type("a".to_string(), 1), ReportMatchers::RawResponse("a".to_string()));
    assert_eq!(ReportMatchers::from_type("a".to_string(), 2), ReportMatchers::ResposneHeaders("a".to_string()));
    assert_eq!(ReportMatchers::from_type("a".to_string(), 3), ReportMatchers::ResponseBody("a".to_string()));
    assert_eq!(ReportMatchers::from_type("a".to_string(), 0), ReportMatchers::General("a".to_string()));
}

#[test]
fn out_report_and_all_reports() {
    let mut r = OutReport::init();
    assert!(r.evidence.is_none() && r.param.is_none() && r.attack.is_none());
    r.set_param("id".to_string());
    r.set_attack("'".to_string());
    r.set_evidence("SQL syntax".to_string());
    let mut all = AllReports { reports: vec![] };
    all.add_vuln_report(r);
    all.add_cve_report(CveReport::init());
    assert_eq!(all.reports.len(), 2);
    assert!(matches!(&all.reports[0], LotusReport::VULN(v) if v.param.as_deref() == Some("id")));
    assert!(matches!(&all.reports[1], LotusReport::CVE(_)));
}

#[test]
fn general_report_matchers() {
    let mut g = GeneralReport::init();
    g.set_target("t".to_string());
    g.add_matcher(serde_json::Value::Bool(true));
    assert_eq!(g.target.as_deref(), Some("t"));
    assert_eq!(g.matchers, vec![serde_json::Value::Bool(true)]);
}

fn scalar(text: &str) -> ReportValue {
    ReportValue::Scalar { text: text.to_string(), boolean: None }
}

#[test]
fn format_report_plain() {
    let report = ReportValue::Object(vec![
        ("name".to_string(), scalar("\"xss\"")),
        ("full_body".to_string(), scalar("\"long\"")),
        (
            "details".to_string(),
            ReportValue::Object(vec![
                ("ok".to_string(), ReportValue::Scalar { text: "true".to_string(), boolean: Some(true) }),
                ("full_x".to_string(), scalar("1")),
                ("n".to_string(), scalar("3")),
            ]),
        ),
    ]);
    let shown = format_report(&report, false);
    assert_eq!(
        shown,
        "{\n  [#] name: \"xss\"\n\n [* details:\n    | → ok: ✔ true\n    | → n: 3\n  ]<|\n}\n\n"
    );
    assert_eq!(format_report(&scalar("1"), false), "");
}

#[test]
fn format_report_styled() {
    let report = ReportValue::Object(vec![("k".to_string(), scalar("1"))]);
    assert_eq!(
        format_report(&report, true),
        "{\n  \u{1b}[34m[#]\u{1b}[0m \u{1b}[1mk\u{1b}[0m: \u{1b}[1m1\u{1b}[0m\n}\n\n"
    );
    let t = format_table("t", &vec![("b".to_string(), ReportValue::Scalar { text: "false".to_string(), boolean: Some(false) })], true);
    assert_eq!(t, "\n [* \u{1b}[32m\u{1b}[1mt\u{1b}[0m:\n    | → \u{1b}[1mb\u{1b}[0m: ✖ false\n  ]<|\n");
}

#[test]
fn shown_reports_keep_all() {
    let mut all = ShownReports { reports: vec![] };
    let text = all.add(ReportValue::Object(vec![]), false);
    assert_eq!(text, "{}\n\n");
    assert_eq!(all.reports.len(), 1);
}
