//! Vacancies that also ask for foreign languages and a car, and the search
//! for experienced English-speaking teachers among them.
use vstd::prelude::*;
use crate::agency::{self, option_text, vacancy_model, VacancyModel};
pub use crate::agency::{Education, VacancyCreationError};
use crate::generic_container::GenericContainer;
use crate::pattern::{regex_compiles, regex_is_match, regex_matches, regex_valid};
use crate::text::{ascii_lower, lowered, parse_spec, render_usize, scan_digits};

verus! {

/// A vacancy with the worker's foreign languages and whether the worker
/// must own a car.
#[derive(Debug)]
pub struct Vacancy {
    basic: agency::Vacancy,
    foreign_languages: Option<String>,
    car: bool,
}

impl Clone for Vacancy {
    /// A copy holding the same texts and values.
    fn clone(&self) -> (r: Self)
        ensures
            r@ == self@,
    {
        let foreign_languages = match &self.foreign_languages {
            Some(l) => Some(l.clone()),
            None => None,
        };
        Vacancy { basic: self.basic.clone(), foreign_languages, car: self.car }
    }
}

/// A clone of a vacancy holds what the vacancy holds.
pub proof fn lemma_clone_keeps_view(a: Vacancy, b: Vacancy)
    requires
        cloned(a, b),
    ensures
        b@ == a@,
{
}

/// What such a vacancy holds, as plain values.
pub struct VacancyExtModel {
    pub basic: VacancyModel,
    pub foreign_languages: Option<Seq<char>>,
    pub car: bool,
}

impl View for Vacancy {
    type V = VacancyExtModel;

    closed spec fn view(&self) -> VacancyExtModel {
        VacancyExtModel {
            basic: self.basic@,
            foreign_languages: option_text(self.foreign_languages),
            car: self.car,
        }
    }
}

/// The specialization asked of the worker, or the empty text.
pub open spec fn worker_specialization_text(m: VacancyExtModel) -> Seq<char> {
    match m.basic.worker_specialization {
        Some((n, _)) => n,
        None => Seq::empty(),
    }
}

/// The years of experience asked of the worker, or 0.
pub open spec fn worker_exp_years_of(m: VacancyExtModel) -> int {
    match m.basic.worker_specialization {
        Some((_, y)) => y,
        None => 0,
    }
}

/// The foreign languages asked of the worker, or the empty text.
pub open spec fn worker_languages_text(m: VacancyExtModel) -> Seq<char> {
    match m.foreign_languages {
        Some(l) => l,
        None => Seq::empty(),
    }
}

/// What such a vacancy is asked for, besides what every vacancy is asked for.
pub trait VacancyTrait: agency::VacancyTrait {
    /// Whether the worker must own a car.
    spec fn worker_owns_car_spec(&self) -> bool;

    /// The foreign languages asked, or the empty text.
    spec fn worker_languages_spec(&self) -> Seq<char>;

    /// The specialization asked of the worker, or the empty text.
    spec fn worker_specialization_spec(&self) -> Seq<char>;

    /// The years of experience asked, or 0.
    spec fn worker_exp_years_spec(&self) -> int;

    fn worker_owns_car(&self) -> (r: bool)
        ensures
            r == self.worker_owns_car_spec(),
    ;

    fn worker_languages(&self) -> (r: &str)
        ensures
            r@ == self.worker_languages_spec(),
    ;

    fn worker_specialization(&self) -> (r: &str)
        ensures
            r@ == self.worker_specialization_spec(),
    ;

    fn worker_exp_years(&self) -> (r: u16)
        ensures
            r == self.worker_exp_years_spec(),
    ;
}

impl agency::VacancyTrait for Vacancy {
    open spec fn company_name_spec(&self) -> Seq<char> {
        self@.basic.company_name
    }

    open spec fn specialization_spec(&self) -> Seq<char> {
        self@.basic.specialization
    }

    open spec fn education_spec(&self) -> Education {
        self@.basic.education
    }

    fn company_name(&self) -> (r: &str) {
        self.basic.company_name()
    }

    fn specialization(&self) -> (r: &str) {
        self.basic.specialization()
    }

    fn education(&self) -> (r: &Education) {
        self.basic.education()
    }
}

impl VacancyTrait for Vacancy {
    open spec fn worker_owns_car_spec(&self) -> bool {
        self@.car
    }

    open spec fn worker_languages_spec(&self) -> Seq<char> {
        worker_languages_text(self@)
    }

    open spec fn worker_specialization_spec(&self) -> Seq<char> {
        worker_specialization_text(self@)
    }

    open spec fn worker_exp_years_spec(&self) -> int {
        worker_exp_years_of(self@)
    }

    fn worker_owns_car(&self) -> (r: bool) {
        self.car
    }

    fn worker_languages(&self) -> (r: &str) {
        proof {
            reveal_strlit("");
        }
        match &self.foreign_languages {
            Some(l) => l.as_str(),
            None => "",
        }
    }

    fn worker_specialization(&self) -> (r: &str) {
        proof {
            reveal_strlit("");
        }
        match self.basic.worker_specialization() {
            Some((name, _)) => name,
            None => "",
        }
    }

    fn worker_exp_years(&self) -> (r: u16) {
        match self.basic.worker_specialization() {
            Some((_, years)) => years,
            None => 0,
        }
    }
}

/// `r` is what making a vacancy of these texts gives: as for a vacancy
/// without languages and car (experience, then salary, then education),
/// with the languages and the car added.
pub open spec fn creation_agrees(
    r: Result<Vacancy, VacancyCreationError>,
    company_name: Seq<char>,
    specialization: Seq<char>,
    conditions: Seq<char>,
    sallary: Seq<char>,
    worker_specialization_name: Option<Seq<char>>,
    work_exp_years: Seq<char>,
    education: Seq<char>,
    foreign_languages: Option<Seq<char>>,
    car: bool,
) -> bool {
    match parse_spec(work_exp_years, u16::MAX as int) {
        Err(_) => r matches Err(VacancyCreationError::ParsingExperience(t)) && t@ == work_exp_years,
        Ok(years) => match parse_spec(sallary, usize::MAX as int) {
            Err(_) => r matches Err(VacancyCreationError::ParsingSallary(t)) && t@ == sallary,
            Ok(pay) => match agency::education_named(lowered(education)) {
                None => r matches Err(VacancyCreationError::ParsingEducationString(t)) && t@
                    == education,
                Some(e) => r matches Ok(v) && v@ == (VacancyExtModel {
                    basic: vacancy_model(
                        company_name,
                        specialization,
                        conditions,
                        pay,
                        worker_specialization_name,
                        years,
                        e,
                    ),
                    foreign_languages,
                    car,
                }),
            },
        },
    }
}

impl Vacancy {
    /// Makes a vacancy from the text a user typed, as `agency::Vacancy::new`
    /// does (experience, then salary, then education), with the worker's
    /// foreign languages and car added.
    pub fn new(
        company_name: &str,
        specialization: &str,
        conditions: &str,
        sallary_string: &str,
        worker_specialization_name: Option<String>,
        work_exp_years_string: &str,
        education_string: &str,
        foreign_languages: Option<String>,
        car: bool,
    ) -> (r: Result<Self, VacancyCreationError>)
        ensures
            creation_agrees(
                r,
                company_name@,
                specialization@,
                conditions@,
                sallary_string@,
                option_text(worker_specialization_name),
                work_exp_years_string@,
                education_string@,
                option_text(foreign_languages),
                car,
            ),
    {
        let basic = agency::Vacancy::new(
            company_name,
            specialization,
            conditions,
            sallary_string,
            worker_specialization_name,
            work_exp_years_string,
            education_string,
        )?;
        Ok(Vacancy { basic, foreign_languages, car })
    }

    /// A vacancy made directly of its parts.
    pub fn from_parts(basic: agency::Vacancy, foreign_languages: Option<String>, car: bool) -> (r:
        Vacancy)
        ensures
            r@ == (VacancyExtModel {
                basic: basic@,
                foreign_languages: option_text(foreign_languages),
                car,
            }),
    {
        Vacancy { basic, foreign_languages, car }
    }

    /// The vacancy without the foreign languages and the car.
    pub fn basic(&self) -> (r: &agency::Vacancy)
        ensures
            r@ == self@.basic,
    {
        &self.basic
    }

    /// The foreign languages asked, if any.
    pub fn foreign_languages(&self) -> (r: Option<&str>)
        ensures
            match self@.foreign_languages {
                Some(l) => r matches Some(t) && t@ == l,
                None => r is None,
            },
    {
        match &self.foreign_languages {
            Some(l) => Some(l.as_str()),
            None => None,
        }
    }

    /// The line the vacancy is shown as (the same as for a vacancy without
    /// languages and car).
    pub fn render(&self) -> (r: String)
        ensures
            r@ == agency::vacancy_text(self@.basic),
    {
        self.basic.render()
    }
}

/// The vacancies as listed, one numbered line each, numbers from 1.
pub fn numbered_listing(items: &Vec<Vacancy>) -> (r: Vec<String>)
    ensures
        r@.len() == items@.len(),
        forall|i: int|
            0 <= i < r@.len() ==> (#[trigger] r@[i])@ == agency::numbered_line(
                (i + 1) as nat,
                agency::vacancy_text(items@[i]@.basic),
            ),
{
    let mut r: Vec<String> = Vec::new();
    let mut i: usize = 0;
    while i < items.len()
        invariant
            i <= items@.len(),
            r@.len() == i,
            forall|j: int|
                0 <= j < i ==> (#[trigger] r@[j])@ == agency::numbered_line(
                    (j + 1) as nat,
                    agency::vacancy_text(items@[j]@.basic),
                ),
        decreases items@.len() - i,
    {
        let mut line = String::from_str("(");
        let number = render_usize(i + 1);
        line.append(number.as_str());
        line.append(") ");
        let text = items[i].render();
        line.append(text.as_str());
        r.push(line);
        i = i + 1;
    }
    r
}

/// The pattern a worker's specialization is searched with for teachers.
pub open spec fn teacher_pattern() -> Seq<char> {
    "(?i)(teacher|educator)"@
}

/// The teacher pattern ignores case and has no `^` or `$` anchor: it is
/// the alternation of `teacher` and `educator`, which a search finds
/// anywhere in a specialization.
pub proof fn lemma_teacher_pattern_text()
    ensures
        teacher_pattern() == seq![
            '(', '?', 'i', ')', '(', 't', 'e', 'a', 'c', 'h', 'e', 'r', '|', 'e', 'd', 'u', 'c',
            'a', 't', 'o', 'r', ')',
        ],
{
    reveal_strlit("(?i)(teacher|educator)");
    assert(teacher_pattern() =~= seq![
        '(', '?', 'i', ')', '(', 't', 'e', 'a', 'c', 'h', 'e', 'r', '|', 'e', 'd', 'u', 'c',
        'a', 't', 'o', 'r', ')',
    ]);
}

/// The pattern a worker's languages are searched with for English.
pub open spec fn english_pattern() -> Seq<char> {
    "(?i)(english)"@
}

/// The English pattern ignores case and has no anchor: it is the word
/// `english`, which a search finds anywhere in the languages.
pub proof fn lemma_english_pattern_text()
    ensures
        english_pattern() == seq!['(', '?', 'i', ')', '(', 'e', 'n', 'g', 'l', 'i', 's', 'h', ')'],
{
    reveal_strlit("(?i)(english)");
    assert(english_pattern() =~= seq![
        '(', '?', 'i', ')', '(', 'e', 'n', 'g', 'l', 'i', 's', 'h', ')',
    ]);
}

/// A teacher or educator (as the teacher pattern finds it in the worker's
/// specialization) who owns a car, speaks English (as the English pattern
/// finds it in the languages) and has more than ten years of experience.
pub open spec fn is_experienced_english_teacher(m: VacancyExtModel) -> bool {
    &&& regex_is_match(teacher_pattern(), worker_specialization_text(m))
    &&& m.car
    &&& regex_is_match(english_pattern(), worker_languages_text(m))
    &&& worker_exp_years_of(m) > 10
}

/// The vacancies for experienced English-speaking teachers with a car, in
/// their order; `None` when the `regex` crate refuses one of the two
/// patterns.
pub fn experienced_english_teachers(data: GenericContainer<Vacancy>) -> (r: Option<Vec<Vacancy>>)
    ensures
        r is None <==> !(regex_valid(teacher_pattern()) && regex_valid(english_pattern())),
        r matches Some(v) ==> v@ == data@.filter(
            |x: Vacancy| is_experienced_english_teacher(x@),
        ),
{
    let teacher = "(?i)(teacher|educator)";
    let english = "(?i)(english)";
    if !regex_compiles(teacher) || !regex_compiles(english) {
        return None;
    }
    let ghost pred = |x: Vacancy| is_experienced_english_teacher(x@);
    let ghost all = data@;
    let mut rest = data;
    let mut r: Vec<Vacancy> = Vec::new();
    while rest.len() > 0
        invariant
            regex_valid(teacher@) && regex_valid(english@),
            teacher@ == teacher_pattern(),
            english@ == english_pattern(),
            pred == (|x: Vacancy| is_experienced_english_teacher(x@)),
            rest@.len() <= all.len(),
            rest@ == all.skip(all.len() - rest@.len()),
            r@ == all.take(all.len() - rest@.len()).filter(pred),
        decreases rest@.len(),
    {
        let ghost done = all.len() - rest@.len();
        let item = match rest.next() {
            Some(x) => x,
            None => {
                return None;
            },
        };
        assert(item == all[done]);
        assert(rest@ =~= all.skip(done + 1));
        assert(all.take(done + 1).drop_last() =~= all.take(done));
        reveal_with_fuel(Seq::<_>::filter, 1);
        let selected = match regex_matches(teacher, item.worker_specialization()) {
            Some(t) => t && item.worker_owns_car() && match regex_matches(
                english,
                item.worker_languages(),
            ) {
                Some(e) => e,
                None => false,
            } && item.worker_exp_years() > 10,
            None => false,
        };
        assert(selected == pred(item));
        if selected {
            r.push(item);
        }
    }
    assert(all.take(all.len() as int) =~= all);
    Some(r)
}

/// The three vacancies the agency starts with.
pub fn default_vacancies() -> (r: Vec<Vacancy>)
    ensures
        r@.len() == 3,
        r@[0]@ == (VacancyExtModel {
            basic: vacancy_model(
                "Company2"@,
                "IT"@,
                "Conditions1"@,
                149200,
                Some("Educator"@),
                12,
                Education::NoneRequired,
            ),
            foreign_languages: Some("English,Spanish,Chinese"@),
            car: true,
        }),
        r@[1]@ == (VacancyExtModel {
            basic: vacancy_model(
                "Company1"@,
                ""@,
                "Conditions2"@,
                69100,
                Some("Teacher"@),
                1,
                Education::School,
            ),
            foreign_languages: Some("English,Chinese"@),
            car: true,
        }),
        r@[2]@ == (VacancyExtModel {
            basic: vacancy_model(
                "Company3"@,
                "PR"@,
                "Conditions3"@,
                19100,
                Some("Teacher"@),
                24,
                Education::University,
            ),
            foreign_languages: Some("German,English"@),
            car: true,
        }),
{
    proof {
        reveal_strlit("149200");
        reveal_strlit("12");
        reveal_strlit("69100");
        reveal_strlit("1");
        reveal_strlit("19100");
        reveal_strlit("24");
        reveal_strlit("");
        reveal_strlit("school");
        reveal_strlit("university");
        reveal_with_fuel(scan_digits, 7);
        assert("school"@.map_values(|c: char| ascii_lower(c)) =~= "school"@);
        assert("university"@.map_values(|c: char| ascii_lower(c)) =~= "university"@);
        assert(""@.map_values(|c: char| ascii_lower(c)) =~= ""@);
    }
    let first = Vacancy::new(
        "Company2",
        "IT",
        "Conditions1",
        "149200",
        Some(String::from_str("Educator")),
        "12",
        "",
        Some(String::from_str("English,Spanish,Chinese")),
        true,
    ).expect("Bad vacancy input ");
    let second = Vacancy::new(
        "Company1",
        "",
        "Conditions2",
        "69100",
        Some(String::from_str("Teacher")),
        "1",
        "school",
        Some(String::from_str("English,Chinese")),
        true,
    ).expect("Bad vacancy input ");
    let third = Vacancy::new(
        "Company3",
        "PR",
        "Conditions3",
        "19100",
        Some(String::from_str("Teacher")),
        "24",
        "university",
        Some(String::from_str("German,English")),
        true,
    ).expect("Bad vacancy input");
    let mut r: Vec<Vacancy> = Vec::new();
    r.push(first);
    r.push(second);
    r.push(third);
    r
}

} // verus!
