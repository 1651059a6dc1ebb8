use dualis_results::extract::{
    overview_results, parse_course_results, parse_overview, parse_semester_details,
    parse_semesters, PageError,
};
use dualis_results::markup::{Cell, Row};
use dualis_results::record::CourseResult;

fn data_row(cells: &[&str]) -> String {
    let mut row = String::from("<tr>");
    for c in cells {
        row.push_str(&format!("<td class=\"tbdata\">{}</td>", c));
    }
    row.push_str("</tr>");
    row
}

fn overview_page(rows: &[String]) -> String {
    format!(
        "<html><body><table><thead><tr><td class=\"tbhead\">Nr.</td></tr></thead><tbody>{}</tbody></table></body></html>",
        rows.concat()
    )
}

fn detail_page(heading: &str, rows: &[String]) -> String {
    format!(
        "<html><body><h1>{}</h1><table>{}</table></body></html>",
        heading,
        rows.concat()
    )
}

fn group_row(label: &str) -> String {
    format!("<tr><td class=\"level02\" colspan=\"8\">{}</td></tr>", label)
}

fn scenario_a_row(icon: &str) -> String {
    data_row(&[
        "T3INF1002",
        "Theoretische\nInformatik I",
        "1,3",
        "5",
        "",
        icon,
    ])
}

#[test]
fn overview_graded_row() {
    let page = overview_page(&[scenario_a_row("<img src=\"x.gif\" title=\"bestanden\">")]);
    let results = parse_overview(&page).unwrap();
    assert_eq!(
        results,
        vec![CourseResult::new(
            "T3INF1002".to_string(),
            "Theoretische Informatik I".to_string(),
            true
        )]
    );
}

#[test]
fn overview_missing_icon_title() {
    let page = overview_page(&[scenario_a_row("<img src=\"x.gif\">")]);
    let results = parse_overview(&page).unwrap();
    assert_eq!(
        results,
        vec![CourseResult::new(
            "T3INF1002".to_string(),
            "Theoretische Informatik I".to_string(),
            false
        )]
    );
    let page = overview_page(&[scenario_a_row("")]);
    assert!(!parse_overview(&page).unwrap()[0].scored);
}

#[test]
fn overview_open_title_in_any_case() {
    let page = overview_page(&[scenario_a_row("<img title=\"OfFeN\">")]);
    assert!(!parse_overview(&page).unwrap()[0].scored);
}

#[test]
fn overview_skips_noise_rows() {
    let short = data_row(&["X1234", "Short", "1", "2", "3"]);
    let mixed = "<tr><td class=\"tbdata\">X1234</td><td>Name</td><td class=\"tbdata\">a</td><td class=\"tbdata\">b</td><td class=\"tbdata\">c</td><td class=\"tbdata\">d</td></tr>".to_string();
    let heading = "<tr class=\"subhead\"><td class=\"tbdata\">A</td><td class=\"tbdata\">B</td><td class=\"tbdata\">C</td><td class=\"tbdata\">D</td><td class=\"tbdata\">E</td><td class=\"tbdata\">F</td></tr>".to_string();
    let top = heading.replace("subhead", "level00");
    let good = data_row(&["B1234", "Kept", "", "", "", "<img title=\"offen\">"]);
    let page = overview_page(&[short, mixed, heading, top, good]);
    let results = parse_overview(&page).unwrap();
    assert_eq!(
        results,
        vec![CourseResult::new("B1234".to_string(), "Kept".to_string(), false)]
    );
}

#[test]
fn overview_name_cleanup() {
    let name = "  Rechnerarchitektur\n  <span> I </span>&lt;!--<b>x</b>--&gt; ";
    let page = overview_page(&[data_row(&["T3INF2002", name, "", "", "", "<img title=\"bestanden\">"])]);
    let results = parse_overview(&page).unwrap();
    assert_eq!(results[0].course_name, "RechnerarchitekturI");
    assert!(!results[0].course_name.contains('\n'));
    assert!(!results[0].course_name.contains("<!--"));
    assert!(!results[0].course_name.contains("-->"));
    assert!(!results[0].course_id.is_empty());
}

#[test]
fn overview_rows_from_elements() {
    let cell = |t: &str, title: Option<&str>| Cell {
        class: Some("tbdata".to_string()),
        text: vec![t.to_string()],
        title: title.map(|s| s.to_string()),
    };
    let row = Row {
        class: None,
        cells: vec![
            cell("A1234", None),
            cell("a <!-- one --> b <!-- two --> c", None),
            cell("", None),
            cell("", None),
            cell("", None),
            cell("", Some("bestanden")),
        ],
    };
    let results = overview_results(&vec![row]);
    assert_eq!(results[0].course_name, "a  c");
    assert!(results[0].scored);
}

#[test]
fn overview_is_idempotent() {
    let page = overview_page(&[
        scenario_a_row("<img title=\"bestanden\">"),
        data_row(&["B1234", "Zwei", "", "", "", "<img title=\"offen\">"]),
    ]);
    let first = parse_overview(&page).unwrap();
    let second = parse_overview(&page).unwrap();
    assert_eq!(first, second);
    assert_eq!(first.len(), 2);
}

#[test]
fn test_parse_course_results_single() {
    let html = detail_page(
        "\n  Theoretische Informatik I (WiSe 2021/22) T3INF1002\n",
        &[
            "<tr><td class=\"tbhead\">Semester</td><td class=\"tbhead\">Prüfung</td></tr>".to_string(),
            group_row("Modulabschlussleistungen"),
            data_row(&["WiSe 2021/22", "Klausur", "100,0 %", "1,3", "", ""]),
        ],
    );
    let results = parse_course_results(&html).unwrap();

    assert_eq!(
        results,
        vec![CourseResult {
            course_id: "T3INF1002".into(),
            course_name: "Theoretische Informatik I (WiSe 2021/22)".into(),
            scored: true,
        },]
    );
}

#[test]
fn test_parse_course_results_multiple() {
    let html = detail_page(
        "T3INF1001 Mathematik I (MOS-TINF21B)",
        &[
            group_row("T3INF1001.1 Lineare Algebra (MOS-TINF21B)"),
            data_row(&["WiSe 2021/22", "Klausur", "50,0 %", "", "", ""]),
            group_row("T3INF1001.2 Analysis (MOS-TINF21B)"),
            data_row(&["WiSe 2021/22", "Klausur", "50,0 %", "noch nicht gesetzt", "", ""]),
        ],
    );
    let results = parse_course_results(&html).unwrap();

    assert_eq!(
        results,
        vec![
            CourseResult {
                course_id: "T3INF1001.1".into(),
                course_name: "Lineare Algebra (MOS-TINF21B)".into(),
                scored: false,
            },
            CourseResult {
                course_id: "T3INF1001.2".into(),
                course_name: "Analysis (MOS-TINF21B)".into(),
                scored: false,
            }
        ]
    );
}

#[test]
fn detail_scenario_points_given() {
    let html = detail_page(
        "Theoretische Informatik I (WiSe 2021/22) T3INF1002",
        &[data_row(&["WiSe 2021/22", "Klausur", "100,0 %", "1,3", "", ""])],
    );
    let results = parse_course_results(&html).unwrap();
    assert_eq!(
        results,
        vec![CourseResult::new(
            "T3INF1002".to_string(),
            "Theoretische Informatik I (WiSe 2021/22)".to_string(),
            true
        )]
    );
}

#[test]
fn detail_scenario_group_without_points() {
    let html = detail_page(
        "T3INF1001 Mathematik I (MOS-TINF21B)",
        &[
            group_row("T3INF1001.1 Lineare Algebra (MOS-TINF21B)"),
            data_row(&["WiSe 2021/22", "Klausur", "50,0 %", "", "", ""]),
        ],
    );
    let results = parse_course_results(&html).unwrap();
    assert_eq!(
        results,
        vec![CourseResult::new(
            "T3INF1001.1".to_string(),
            "Lineare Algebra (MOS-TINF21B)".to_string(),
            false
        )]
    );
}

#[test]
fn detail_row_before_any_group_uses_main_code() {
    let html = detail_page(
        "T3INF1004 Programmieren",
        &[data_row(&["SoSe 2022", "Projekt", "100,0 %", "2,0", "", ""])],
    );
    let results = parse_course_results(&html).unwrap();
    assert_eq!(
        results,
        vec![CourseResult::new("T3INF1004".to_string(), "Programmieren".to_string(), true)]
    );
}

#[test]
fn detail_closing_exam_group_takes_main_name() {
    let html = detail_page(
        "T3INF1001 Mathematik I",
        &[
            group_row("T3INF1001.1 Lineare Algebra"),
            data_row(&["WiSe 2021/22", "Klausur", "50,0 %", "2,0", "", ""]),
            group_row("Modulabschlussleistungen"),
            data_row(&["WiSe 2021/22", "Gesamt", "100,0 %", "noch nicht erbracht", "", ""]),
        ],
    );
    let results = parse_course_results(&html).unwrap();
    assert_eq!(
        results,
        vec![
            CourseResult::new("T3INF1001.1".to_string(), "Lineare Algebra".to_string(), true),
            CourseResult::new("T3INF1001".to_string(), "Mathematik I".to_string(), false),
        ]
    );
}

#[test]
fn detail_page_without_heading() {
    let html = "<html><body><table><tr><td>x</td></tr></table></body></html>";
    assert_eq!(parse_course_results(html), Err(PageError::MissingHeading));
}

#[test]
fn detail_heading_without_code() {
    let html = detail_page("Kein Modul", &[]);
    assert_eq!(parse_course_results(&html), Err(PageError::MissingCourseCode));
}

#[test]
fn test_parse_semester_details() {
    let hrefs = [
        "/scripts/mgrqispi.dll?APPNAME=CampusNet&PRGNAME=RESULTDETAILS&ARGUMENTS=-N796098644273095,-N000019,-N380913492536419,-N000000015098000",
        "/scripts/mgrqispi.dll?APPNAME=CampusNet&PRGNAME=RESULTDETAILS&ARGUMENTS=-N796098644273095,-N000019,-N381934466869103,-N000000015098000",
        "/scripts/mgrqispi.dll?APPNAME=CampusNet&PRGNAME=RESULTDETAILS&ARGUMENTS=-N796098644273095,-N000019,-N380913840065009,-N000000015098000",
        "/scripts/mgrqispi.dll?APPNAME=CampusNet&PRGNAME=RESULTDETAILS&ARGUMENTS=-N796098644273095,-N000019,-N380914243305413,-N000000015098000",
        "/scripts/mgrqispi.dll?APPNAME=CampusNet&PRGNAME=RESULTDETAILS&ARGUMENTS=-N796098644273095,-N000019,-N381934623749891,-N000000015098000",
        "/scripts/mgrqispi.dll?APPNAME=CampusNet&PRGNAME=RESULTDETAILS&ARGUMENTS=-N796098644273095,-N000019,-N382213482644004,-N000000015098000",
        "/scripts/mgrqispi.dll?APPNAME=CampusNet&PRGNAME=RESULTDETAILS&ARGUMENTS=-N796098644273095,-N000019,-N380914104617007,-N000000015098000",
        "/scripts/mgrqispi.dll?APPNAME=CampusNet&PRGNAME=RESULTDETAILS&ARGUMENTS=-N796098644273095,-N000019,-N380914015873077,-N000000015098000",
    ];
    let mut rows = String::new();
    for h in hrefs.iter() {
        rows.push_str(&format!(
            "<tr><td class=\"tbdata\">Modul</td><td class=\"tbdata\"><a href=\"{}\">Prüfungen</a></td></tr>",
            h.replace('&', "&amp;")
        ));
    }
    let html = format!(
        "<html><body><table><tr><td class=\"tbhead\"><a href=\"/other\">x</a></td></tr>{}<tr><td class=\"tbdata\"><a>kein Ziel</a></td></tr></table></body></html>",
        rows
    );
    let course_urls = parse_semester_details(&html).unwrap();

    assert_eq!(course_urls.len(), 8);
    assert_eq!(course_urls, hrefs.iter().map(|s| s.to_string()).collect::<Vec<String>>());
}

#[test]
fn semesters_of_overview() {
    let html = "<html><body><select id=\"semester\"><option value=\"000000015098000\">WiSe 2021/22</option><option>SoSe 2022</option></select><select id=\"other\"><option value=\"1\">x</option></select></body></html>";
    let semesters = parse_semesters(html).unwrap();
    assert_eq!(semesters.len(), 2);
    assert_eq!(semesters[0].id, "000000015098000");
    assert_eq!(semesters[0].name, "WiSe 2021/22");
    assert_eq!(semesters[1].id, "");
    assert_eq!(semesters[1].name, "SoSe 2022");
}

#[test]
fn semesters_of_page_without_choice() {
    assert!(parse_semesters("<html><body></body></html>").unwrap().is_empty());
}
