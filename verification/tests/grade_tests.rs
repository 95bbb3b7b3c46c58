use mensa_bot::grades::{check_notify_htwk_grades, grade_message, GradeCheckError, Grade, GradeTable};
use mensa_bot::text::text_equal;

fn grade(text: &str, g: Option<&str>, ects: Option<&str>) -> Grade {
    Grade { pruefungstext: text.to_string(), grade: g.map(|s| s.to_string()), ects: ects.map(|s| s.to_string()) }
}

const TITLE: &str = "Leistungsübersicht im Studiengang Informatik | Master";

#[test]
fn message_names_exam_grade_and_credits() {
    assert_eq!(grade_message(&grade("Mathe", Some("1.3"), Some("5"))), "Neue Note: Mathe \\- 1\\.3 \\(5 ECTS\\)");
    assert_eq!(grade_message(&grade("Compilerbau", None, None)), "Neue Note: Compilerbau \\- k\\.N\\. \\(idk ECTS\\)");
}

#[test]
fn message_escapes_all_reserved_characters() {
    assert_eq!(
        grade_message(&grade("a_b*c[d]e~f`g>h#i+j=k|l{m}n!o\\", Some("2,0"), Some("6"))),
        "Neue Note: a\\_b\\*c\\[d\\]e\\~f\\`g\\>h\\#i\\+j\\=k\\|l\\{m\\}n\\!o\\\\ \\- 2,0 \\(6 ECTS\\)"
    );
}

#[test]
fn missing_table_is_an_error() {
    let tables = vec![GradeTable { title: "Bachelor".to_string(), grades: vec![] }];
    assert_eq!(check_notify_htwk_grades(&tables, &vec![]), Err(GradeCheckError::GradeTableNotFound));
    assert_eq!(check_notify_htwk_grades(&vec![], &vec![]), Err(GradeCheckError::GradeTableNotFound));
}

#[test]
fn only_new_grades_are_announced() {
    let tables = vec![
        GradeTable { title: "Bachelor".to_string(), grades: vec![grade("Alt", Some("1.0"), Some("5"))] },
        GradeTable {
            title: TITLE.to_string(),
            grades: vec![grade("Mathe", Some("1.3"), Some("5")), grade("Netze", None, Some("5")), grade("KI", Some("2.0"), None)],
        },
        GradeTable { title: TITLE.to_string(), grades: vec![grade("Zweite", None, None)] },
    ];
    let old = vec![grade("Mathe", Some("1.3"), Some("5")), grade("Netze", Some("1.7"), Some("5"))];
    let res = check_notify_htwk_grades(&tables, &old).unwrap();
    assert_eq!(res.table_index, 1);
    assert_eq!(
        res.messages,
        vec!["Neue Note: Netze \\- k\\.N\\. \\(5 ECTS\\)".to_string(), "Neue Note: KI \\- 2\\.0 \\(idk ECTS\\)".to_string()]
    );
    let again = check_notify_htwk_grades(&tables, &tables[1].grades).unwrap();
    assert!(again.messages.is_empty());
}

#[test]
fn text_equality_compares_characters() {
    assert!(text_equal("Grüße", "Grüße"));
    assert!(!text_equal("Grüße", "Gruße"));
    assert!(!text_equal("ab", "abc"));
    assert!(text_equal("", ""));
}
