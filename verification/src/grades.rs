//! Notifications of new HTWK grades: which table to read, which grades are new, and the
//! Telegram message for each.
use vstd::prelude::*;

use crate::text::{optional_text, optional_text_equal, text_equal};

verus! {

/// One grade of a grade table: the exam, and the grade and credits where they are known.
#[derive(Clone, Debug, PartialEq, Eq)]
pub struct Grade {
    pub pruefungstext: String,
    pub grade: Option<String>,
    pub ects: Option<String>,
}

/// The exam, grade and credits of a grade.
pub type GradeView = (Seq<char>, Option<Seq<char>>, Option<Seq<char>>);

impl View for Grade {
    type V = GradeView;

    open spec fn view(&self) -> GradeView {
        (self.pruefungstext@, optional_text(self.grade), optional_text(self.ects))
    }
}

/// A titled table of grades.
#[derive(Clone, Debug, PartialEq, Eq)]
pub struct GradeTable {
    pub title: String,
    pub grades: Vec<Grade>,
}

/// The grades of a sequence of grades.
pub open spec fn grade_views(grades: Seq<Grade>) -> Seq<GradeView> {
    grades.map_values(|g: Grade| g@)
}

/// The characters that Telegram's MarkdownV2 style reserves, as teloxide escapes them.
pub open spec fn is_telegram_reserved(c: char) -> bool {
    c == '\\' || c == '_' || c == '*' || c == '[' || c == ']' || c == '(' || c == ')' || c == '~'
        || c == '`' || c == '>' || c == '#' || c == '+' || c == '-' || c == '=' || c == '|' || c
        == '{' || c == '}' || c == '.' || c == '!'
}

/// `s` with a backslash before each reserved character.
pub open spec fn telegram_escaped(s: Seq<char>) -> Seq<char>
    decreases s.len(),
{
    if s.len() == 0 {
        Seq::empty()
    } else {
        telegram_escaped(s.drop_last()) + if is_telegram_reserved(s.last()) {
            seq!['\\', s.last()]
        } else {
            seq![s.last()]
        }
    }
}

/// Calls `teloxide::utils::markdown::escape`, which puts a backslash before each character
/// that MarkdownV2 reserves and keeps the others.
#[verifier::external_body]
fn teloxide_markdown_escape(s: &str) -> (res: String)
    ensures
        res@ == telegram_escaped(s@),
{
    teloxide::utils::markdown::escape(s)
}

/// The text announcing a new grade, before escaping.
pub open spec fn grade_text(g: GradeView) -> Seq<char> {
    "Neue Note: "@ + g.0 + " - "@ + match g.1 {
        Some(x) => x,
        None => "k.N."@,
    } + " ("@ + match g.2 {
        Some(e) => e,
        None => "idk"@,
    } + " ECTS)"@
}

/// The message announcing a new grade: `Neue Note: <exam> - <grade> (<credits> ECTS)`,
/// with `k.N.` for an unknown grade and `idk` for unknown credits, escaped for MarkdownV2.
pub fn grade_message(g: &Grade) -> (res: String)
    ensures
        res@ == telegram_escaped(grade_text(g@)),
{
    let mut text = String::from_str("Neue Note: ");
    text.append(g.pruefungstext.as_str());
    text.append(" - ");
    match &g.grade {
        Some(x) => text.append(x.as_str()),
        None => text.append("k.N."),
    }
    text.append(" (");
    match &g.ects {
        Some(e) => text.append(e.as_str()),
        None => text.append("idk"),
    }
    text.append(" ECTS)");
    teloxide_markdown_escape(text.as_str())
}

/// Whether two grades are the same in exam, grade and credits.
pub fn grade_equal(a: &Grade, b: &Grade) -> (res: bool)
    ensures
        res == (a@ == b@),
{
    text_equal(a.pruefungstext.as_str(), b.pruefungstext.as_str()) && optional_text_equal(
        &a.grade,
        &b.grade,
    ) && optional_text_equal(&a.ects, &b.ects)
}

/// Whether `grades` holds a grade equal to `g`.
pub fn contains_grade(grades: &Vec<Grade>, g: &Grade) -> (res: bool)
    ensures
        res == grade_views(grades@).contains(g@),
{
    let mut i: usize = 0;
    while i < grades.len()
        invariant
            i <= grades.len(),
            forall|j: int| 0 <= j < i ==> grades@[j]@ != g@,
        decreases grades.len() - i,
    {
        if grade_equal(&grades[i], g) {
            assert(grade_views(grades@)[i as int] == g@);
            return true;
        }
        i = i + 1;
    }
    assert forall|j: int| 0 <= j < grade_views(grades@).len() implies grade_views(grades@)[j]
        != g@ by {
        assert(grade_views(grades@)[j] == grades@[j]@);
    }
    false
}

/// The messages for the grades of `new` that `old` does not hold, in the order of `new`.
pub open spec fn new_grade_messages(new: Seq<GradeView>, old: Seq<GradeView>) -> Seq<Seq<char>>
    decreases new.len(),
{
    if new.len() == 0 {
        Seq::empty()
    } else {
        new_grade_messages(new.drop_last(), old) + if old.contains(new.last()) {
            Seq::empty()
        } else {
            seq![telegram_escaped(grade_text(new.last()))]
        }
    }
}

/// The characters of each message.
pub open spec fn message_texts(messages: Seq<String>) -> Seq<Seq<char>> {
    messages.map_values(|m: String| m@)
}

/// The messages announcing the grades of `new_grades` that `old_grades` does not hold.
pub fn new_grade_notifications(new_grades: &Vec<Grade>, old_grades: &Vec<Grade>) -> (res: Vec<String>)
    ensures
        message_texts(res@) == new_grade_messages(grade_views(new_grades@), grade_views(old_grades@)),
{
    let mut messages: Vec<String> = Vec::new();
    let mut i: usize = 0;
    let ghost old_v = grade_views(old_grades@);
    while i < new_grades.len()
        invariant
            i <= new_grades.len(),
            old_v == grade_views(old_grades@),
            message_texts(messages@) == new_grade_messages(grade_views(new_grades@.take(i as int)), old_v),
        decreases new_grades.len() - i,
    {
        let g = &new_grades[i];
        let ghost prefix = grade_views(new_grades@.take(i + 1));
        assert(prefix.drop_last() =~= grade_views(new_grades@.take(i as int)));
        assert(prefix.last() == g@);
        if !contains_grade(old_grades, g) {
            let m = grade_message(g);
            messages.push(m);
            assert(message_texts(messages@) =~= new_grade_messages(prefix, old_v));
        } else {
            assert(message_texts(messages@) =~= new_grade_messages(prefix, old_v));
        }
        i = i + 1;
    }
    assert(new_grades@.take(new_grades.len() as int) =~= new_grades@);
    messages
}

/// The title of the grade table of the computer science master's programme.
pub fn htwk_grade_table_title() -> (res: &'static str)
    ensures
        res@ == "Leistungsübersicht im Studiengang Informatik | Master"@,
{
    "Leistungsübersicht im Studiengang Informatik | Master"
}

/// The position of the first table titled `title`, if any.
pub fn find_grade_table(tables: &Vec<GradeTable>, title: &str) -> (res: Option<usize>)
    ensures
        match res {
            Some(i) => i < tables.len() && tables@[i as int].title@ == title@ && forall|j: int|
                0 <= j < i ==> tables@[j].title@ != title@,
            None => forall|j: int| 0 <= j < tables.len() ==> tables@[j].title@ != title@,
        },
{
    let mut i: usize = 0;
    while i < tables.len()
        invariant
            i <= tables.len(),
            forall|j: int| 0 <= j < i ==> tables@[j].title@ != title@,
        decreases tables.len() - i,
    {
        if text_equal(tables[i].title.as_str(), title) {
            return Some(i);
        }
        i = i + 1;
    }
    None
}

/// Why no grade notifications could be made.
#[derive(Clone, Copy, Debug, PartialEq, Eq)]
pub enum GradeCheckError {
    /// No table has the title of the programme's grade table.
    GradeTableNotFound,
}

/// The outcome of a grade check: which table holds the current grades, and the
/// messages to send for the new ones.
#[derive(Clone, Debug, PartialEq, Eq)]
pub struct GradeNotifications {
    pub table_index: usize,
    pub messages: Vec<String>,
}

/// Reads the programme's grade table out of `all_tables` and makes a message for each of
/// its grades that `old_grades` does not hold; fails when no table has the programme's title.
pub fn check_notify_htwk_grades(all_tables: &Vec<GradeTable>, old_grades: &Vec<Grade>) -> (res:
    Result<GradeNotifications, GradeCheckError>)
    ensures
        match res {
            Ok(n) => {
                let t = "Leistungsübersicht im Studiengang Informatik | Master"@;
                &&& n.table_index < all_tables.len()
                &&& all_tables@[n.table_index as int].title@ == t
                &&& forall|j: int| 0 <= j < n.table_index ==> all_tables@[j].title@ != t
                &&& message_texts(n.messages@) == new_grade_messages(
                    grade_views(all_tables@[n.table_index as int].grades@),
                    grade_views(old_grades@),
                )
            },
            Err(e) => e == GradeCheckError::GradeTableNotFound && forall|j: int|
                0 <= j < all_tables.len() ==> all_tables@[j].title@
                    != "Leistungsübersicht im Studiengang Informatik | Master"@,
        },
{
    match find_grade_table(all_tables, htwk_grade_table_title()) {
        None => Err(GradeCheckError::GradeTableNotFound),
        Some(i) => {
            let messages = new_grade_notifications(&all_tables[i].grades, old_grades);
            Ok(GradeNotifications { table_index: i, messages })
        },
    }
}

/// Grades that are all known already give no message; in particular a second check against
/// the grades stored by the first sends nothing.
pub proof fn lemma_known_grades_give_no_messages(new: Seq<GradeView>, old: Seq<GradeView>)
    requires
        forall|i: int| 0 <= i < new.len() ==> old.contains(#[trigger] new[i]),
    ensures
        new_grade_messages(new, old) == Seq::<Seq<char>>::empty(),
    decreases new.len(),
{
    if new.len() > 0 {
        assert(old.contains(new[new.len() - 1]));
        assert forall|i: int| 0 <= i < new.drop_last().len() implies old.contains(
            #[trigger] new.drop_last()[i],
        ) by {
            assert(new.drop_last()[i] == new[i]);
        }
        lemma_known_grades_give_no_messages(new.drop_last(), old);
        assert(new_grade_messages(new, old) =~= Seq::<Seq<char>>::empty());
    }
}

/// Checking a list of grades against itself gives no message.
pub proof fn lemma_rechecking_gives_no_messages(grades: Seq<GradeView>)
    ensures
        new_grade_messages(grades, grades) == Seq::<Seq<char>>::empty(),
{
    assert forall|i: int| 0 <= i < grades.len() implies grades.contains(#[trigger] grades[i]) by {}
    lemma_known_grades_give_no_messages(grades, grades);
}

/// Every new grade, and only a new one, gets a message: the messages number the grades of
/// `new` that `old` does not hold.
pub proof fn lemma_one_message_per_new_grade(new: Seq<GradeView>, old: Seq<GradeView>)
    ensures
        new_grade_messages(new, old).len() == new.filter(|g: GradeView| !old.contains(g)).len(),
    decreases new.len(),
{
    reveal(Seq::filter);
    if new.len() > 0 {
        lemma_one_message_per_new_grade(new.drop_last(), old);
    }
}

/// Each message announces a grade of `new` that `old` does not hold, and each such grade
/// is announced.
pub proof fn lemma_messages_announce_new_grades(new: Seq<GradeView>, old: Seq<GradeView>)
    ensures
        forall|k: int|
            0 <= k < new_grade_messages(new, old).len() ==> exists|i: int|
                0 <= i < new.len() && !old.contains(new[i]) && #[trigger] new_grade_messages(
                    new,
                    old,
                )[k] == telegram_escaped(grade_text(new[i])),
        forall|i: int|
            0 <= i < new.len() && !old.contains(#[trigger] new[i]) ==> new_grade_messages(
                new,
                old,
            ).contains(telegram_escaped(grade_text(new[i]))),
    decreases new.len(),
{
    if new.len() > 0 {
        let p = new.drop_last();
        lemma_messages_announce_new_grades(p, old);
        let mp = new_grade_messages(p, old);
        let m = new_grade_messages(new, old);
        let t: Seq<Seq<char>> = if old.contains(new.last()) {
            Seq::empty()
        } else {
            seq![telegram_escaped(grade_text(new.last()))]
        };
        assert(m == mp + t);
        assert forall|k: int| 0 <= k < m.len() implies exists|i: int|
            0 <= i < new.len() && !old.contains(new[i]) && #[trigger] m[k] == telegram_escaped(
                grade_text(new[i]),
            ) by {
            if k < mp.len() {
                assert(m[k] == mp[k]);
                let i = choose|i: int|
                    0 <= i < p.len() && !old.contains(p[i]) && mp[k] == telegram_escaped(
                        grade_text(p[i]),
                    );
                assert(new[i] == p[i]);
            } else {
                assert(m[k] == t[0]);
                assert(new[new.len() - 1] == new.last());
            }
        }
        assert forall|i: int| 0 <= i < new.len() && !old.contains(#[trigger] new[i]) implies m.contains(
            telegram_escaped(grade_text(new[i])),
        ) by {
            if i < p.len() {
                assert(new[i] == p[i]);
                assert(mp.contains(telegram_escaped(grade_text(p[i]))));
                let k = choose|k: int| 0 <= k < mp.len() && mp[k] == telegram_escaped(grade_text(p[i]));
                assert(m[k] == mp[k]);
            } else {
                assert(m[mp.len() as int] == t[0]);
            }
        }
    }
}

} // verus!
