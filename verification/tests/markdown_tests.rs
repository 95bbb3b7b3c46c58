use mensa_bot::markdown::escape_markdown_v2;

#[test]
fn escapes_each_special_character() {
    assert_eq!(escape_markdown_v2(".!+-<>()="), "\\.\\!\\+\\-\\<\\>\\(\\)\\=");
}

#[test]
fn escapes_a_menu_line() {
    assert_eq!(
        escape_markdown_v2("Pasta (vegan) - 2.50 EUR!"),
        "Pasta \\(vegan\\) \\- 2\\.50 EUR\\!"
    );
}

#[test]
fn decodes_the_amp_entity() {
    assert_eq!(escape_markdown_v2("Salz &amp; Pfeffer"), "Salz & Pfeffer");
    assert_eq!(escape_markdown_v2("&amp;"), "&");
}

#[test]
fn decodes_amp_once_from_left_to_right() {
    assert_eq!(escape_markdown_v2("&amp;amp;"), "&amp;");
    assert_eq!(escape_markdown_v2("&&amp;"), "&&");
    assert_eq!(escape_markdown_v2("&amp"), "&amp");
}

#[test]
fn keeps_plain_text() {
    assert_eq!(escape_markdown_v2(""), "");
    assert_eq!(escape_markdown_v2("Kartoffelsuppe mit Brot"), "Kartoffelsuppe mit Brot");
    assert_eq!(escape_markdown_v2("Grüße_*[]"), "Grüße_*[]");
}

#[test]
fn puts_a_backslash_before_an_escaped_dot() {
    assert_eq!(escape_markdown_v2("\\."), "\\\\.");
}

#[test]
fn every_special_character_of_the_result_follows_a_backslash() {
    let out: Vec<char> = escape_markdown_v2("a.b&amp;.c(d)=e&amp;-").chars().collect();
    for i in 0..out.len() {
        if ".!+-<>()=".contains(out[i]) {
            assert!(i > 0 && out[i - 1] == '\\');
        }
    }
}

fn unescape(s: &str) -> String {
    let c: Vec<char> = s.chars().collect();
    let mut out = String::new();
    let mut i = 0;
    while i < c.len() {
        if i + 1 < c.len() && c[i] == '\\' && ".!+-<>()=".contains(c[i + 1]) {
            out.push(c[i + 1]);
            i += 2;
        } else {
            out.push(c[i]);
            i += 1;
        }
    }
    out
}

#[test]
fn unescaping_gives_back_the_decoded_input() {
    for input in ["a.b", "\\.", "x &amp; y (1-2)", "&&amp;amp;!", "\\\\+=", ""] {
        assert_eq!(unescape(&escape_markdown_v2(input)), input.replace("&amp;", "&"));
    }
}

#[test]
fn escaping_splits_after_a_part_without_ampersand() {
    let a = "Suppe (vegan). ";
    let b = "Brot &amp; Butter!";
    assert_eq!(escape_markdown_v2(&format!("{}{}", a, b)), format!("{}{}", escape_markdown_v2(a), escape_markdown_v2(b)));
}

#[test]
fn escaping_adds_one_backslash_per_special_character() {
    assert_eq!(escape_markdown_v2("a.b(c)").chars().count(), 6 + 3);
    assert_eq!(escape_markdown_v2("Grüße!").chars().count(), 6 + 1);
}
