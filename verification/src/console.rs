//! The decisions of the agency's text console: what a line typed at the
//! menu asks for, what removing a vacancy by its number does, and the form
//! a new vacancy is typed into. Reading and printing is left to the caller,
//! which hands each line over as it was read.
use vstd::prelude::*;
use crate::agency::{self, option_text};
use crate::agency_ext;
use crate::generic_container::{deleted, GenericContainer};
use crate::pattern::{regex_find, regex_first_match, regex_valid};
use crate::text::{parse_spec, parse_usize, same_text, trim, trimmed};

verus! {

/// What a line typed at the menu asks for.
#[derive(Debug, Clone, Copy, PartialEq, Eq, Structural)]
pub enum MenuCommand {
    /// `1`: list all vacancies.
    ListAll,
    /// `2`: add a vacancy.
    AddVacancy,
    /// `3`: remove a vacancy by its number.
    RemoveVacancy,
    /// `4`: leave.
    Exit,
    /// Anything else.
    Unrecognized,
}

/// The command a (trimmed) text names.
pub open spec fn command_named(t: Seq<char>) -> MenuCommand {
    if t == "1"@ {
        MenuCommand::ListAll
    } else if t == "2"@ {
        MenuCommand::AddVacancy
    } else if t == "3"@ {
        MenuCommand::RemoveVacancy
    } else if t == "4"@ {
        MenuCommand::Exit
    } else {
        MenuCommand::Unrecognized
    }
}

fn command_of(t: &str) -> (r: MenuCommand)
    ensures
        r == command_named(t@),
{
    if same_text(t, "1") {
        MenuCommand::ListAll
    } else if same_text(t, "2") {
        MenuCommand::AddVacancy
    } else if same_text(t, "3") {
        MenuCommand::RemoveVacancy
    } else if same_text(t, "4") {
        MenuCommand::Exit
    } else {
        MenuCommand::Unrecognized
    }
}

/// The command a line typed at the menu asks for, the line trimmed of
/// whitespace first.
pub fn menu_command(line: &str) -> (r: MenuCommand)
    ensures
        r == command_named(trimmed(line@)),
{
    command_of(trim(line))
}

/// The pattern a menu line must match when lines are checked by pattern.
pub open spec fn menu_pattern() -> Seq<char> {
    "^[1-4]$"@
}

/// What a menu line checked by pattern gives.
#[derive(Debug, Clone, Copy, PartialEq, Eq, Structural)]
pub enum MenuChoice {
    /// The pattern matched this text, which names this command.
    Command(MenuCommand),
    /// The pattern did not match; the menu is shown again.
    NoMatch,
}

/// The command a line typed at the menu asks for, when the trimmed line is
/// first searched with the menu pattern and the matched text read;
/// `None` when the `regex` crate refuses the pattern.
pub fn menu_choice(line: &str) -> (r: Option<MenuChoice>)
    ensures
        r is None <==> !regex_valid(menu_pattern()),
        r matches Some(c) ==> match regex_first_match(menu_pattern(), trimmed(line@)) {
            None => c == MenuChoice::NoMatch,
            Some(m) => c == MenuChoice::Command(command_named(m)),
        },
{
    match regex_find("^[1-4]$", trim(line)) {
        None => None,
        Some(None) => Some(MenuChoice::NoMatch),
        Some(Some(m)) => Some(MenuChoice::Command(command_of(m.as_str()))),
    }
}

/// What came of a request to remove a vacancy by its number.
#[derive(Debug, Clone, Copy, PartialEq, Eq, Structural)]
pub enum Removal {
    /// The text is no number.
    NotANumber,
    /// The text matched the number pattern but is no `usize`.
    Unparsable,
    /// The number is past the last vacancy.
    TooLarge,
    /// The number is 0.
    Zero,
    /// The container refused to delete.
    Refused,
    /// A vacancy was removed.
    Removed,
}

/// What removing number `index` (counting from 1) from a container with
/// items `s` gives, and what is left: the number is checked against the
/// length and against 0, then the container is asked to delete the item
/// numbered `index - 1`.
pub open spec fn removal_by_number<T>(s: Seq<T>, index: int) -> (Removal, Seq<T>) {
    if index > s.len() {
        (Removal::TooLarge, s)
    } else if index == 0 {
        (Removal::Zero, s)
    } else {
        match deleted(s, index - 1) {
            None => (Removal::Refused, s),
            Some((rest, _)) => (Removal::Removed, rest),
        }
    }
}

/// Through the container, the vacancy numbered 1 can never be removed:
/// its number less one is 0, which the container refuses.
pub proof fn lemma_first_is_refused<T>(s: Seq<T>)
    requires
        s.len() >= 1,
    ensures
        removal_by_number(s, 1) == (Removal::Refused, s),
{
}

/// Through the container, a typed number from 2 to the length removes the
/// item at place `index - 2` (the container counts from 1 and is given the
/// number less one): the items before it stay where they were and those
/// after it move up by one. Any other number removes nothing.
pub proof fn lemma_numbered_removal_takes_item_before<T>(s: Seq<T>, index: int)
    requires
        index >= 0,
    ensures
        (removal_by_number(s, index).0 == Removal::Removed) == (2 <= index <= s.len()),
        2 <= index <= s.len() ==> {
            let rest = removal_by_number(s, index).1;
            &&& rest.len() + 1 == s.len()
            &&& forall|k: int| 0 <= k < index - 2 ==> #[trigger] rest[k] == s[k]
            &&& forall|k: int| index - 2 <= k < rest.len() ==> #[trigger] rest[k] == s[k + 1]
        },
        !(2 <= index <= s.len()) ==> removal_by_number(s, index).1 == s,
{
}

fn remove_number<T: Clone>(data: &mut GenericContainer<T>, index: usize) -> (r: Removal)
    ensures
        (r, final(data)@) == removal_by_number(old(data)@, index as int),
{
    if index > data.len() {
        Removal::TooLarge
    } else if index == 0 {
        Removal::Zero
    } else {
        match data.delete_by_number(index - 1) {
            Err(_) => Removal::Refused,
            Ok(_) => Removal::Removed,
        }
    }
}

/// Removes the vacancy whose number the trimmed line gives, asking the
/// container to delete by that number less one.
pub fn remove_by_typed_number<T: Clone>(data: &mut GenericContainer<T>, line: &str) -> (r:
    Removal)
    ensures
        match parse_spec(trimmed(line@), usize::MAX as int) {
            Err(_) => r == Removal::NotANumber && final(data)@ == old(data)@,
            Ok(i) => (r, final(data)@) == removal_by_number(old(data)@, i),
        },
{
    match parse_usize(trim(line)) {
        Err(_) => Removal::NotANumber,
        Ok(index) => remove_number(data, index),
    }
}

/// The pattern a number typed for removal must match when lines are
/// checked by pattern.
pub open spec fn number_pattern() -> Seq<char> {
    "^[1-90]*$"@
}

/// Removes the vacancy whose number the trimmed line gives, when the line
/// is first searched with the number pattern and the matched text read;
/// `None` when the `regex` crate refuses the pattern.
pub fn remove_by_matched_number<T: Clone>(data: &mut GenericContainer<T>, line: &str) -> (r:
    Option<Removal>)
    ensures
        r is None <==> !regex_valid(number_pattern()),
        r is None ==> final(data)@ == old(data)@,
        r matches Some(x) ==> match regex_first_match(number_pattern(), trimmed(line@)) {
            None => x == Removal::NotANumber && final(data)@ == old(data)@,
            Some(m) => match parse_spec(m, usize::MAX as int) {
                Err(_) => x == Removal::Unparsable && final(data)@ == old(data)@,
                Ok(i) => (x, final(data)@) == removal_by_number(old(data)@, i),
            },
        },
{
    match regex_find("^[1-90]*$", trim(line)) {
        None => None,
        Some(None) => Some(Removal::NotANumber),
        Some(Some(m)) => match parse_usize(m.as_str()) {
            Err(_) => Some(Removal::Unparsable),
            Ok(index) => Some(remove_number(data, index)),
        },
    }
}

/// What removing number `index` (counting from 1) from a list `s` gives,
/// and what is left: the number is checked against the length and against
/// 0, then the item at `index - 1` is removed.
pub open spec fn removal_from_list<T>(s: Seq<T>, index: int) -> (Removal, Seq<T>) {
    if index > s.len() {
        (Removal::TooLarge, s)
    } else if index == 0 {
        (Removal::Zero, s)
    } else {
        (Removal::Removed, s.remove(index - 1))
    }
}

/// In the list console, number `index` names the item at place
/// `index - 1`: a number from 1 to the length removes exactly that item,
/// the items before it staying where they were and those after it moving
/// up by one; any other number leaves the list as it was.
pub proof fn lemma_list_removal_takes_numbered_item<T>(s: Seq<T>, index: int)
    requires
        index >= 0,
    ensures
        (removal_from_list(s, index).0 == Removal::Removed) == (1 <= index <= s.len()),
        1 <= index <= s.len() ==> {
            let rest = removal_from_list(s, index).1;
            &&& rest.len() + 1 == s.len()
            &&& forall|k: int| 0 <= k < index - 1 ==> #[trigger] rest[k] == s[k]
            &&& forall|k: int| index - 1 <= k < rest.len() ==> #[trigger] rest[k] == s[k + 1]
        },
        !(1 <= index <= s.len()) ==> removal_from_list(s, index).1 == s,
{
}

/// Removes from a list the vacancy whose number the trimmed line gives.
pub fn remove_from_list<T>(data: &mut Vec<T>, line: &str) -> (r: Removal)
    ensures
        match parse_spec(trimmed(line@), usize::MAX as int) {
            Err(_) => r == Removal::NotANumber && final(data)@ == old(data)@,
            Ok(i) => (r, final(data)@) == removal_from_list(old(data)@, i),
        },
{
    match parse_usize(trim(line)) {
        Err(_) => Removal::NotANumber,
        Ok(index) => {
            if index > data.len() {
                Removal::TooLarge
            } else if index == 0 {
                Removal::Zero
            } else {
                data.remove(index - 1);
                Removal::Removed
            }
        },
    }
}

/// The fields of the form, in the order they are asked for.
#[derive(Debug, Clone, Copy, PartialEq, Eq, Structural)]
pub enum Field {
    CompanyName,
    Specialization,
    Conditions,
    Salary,
    WorkerSpecialization,
    ExperienceYears,
    Education,
    /// Every field is filled in.
    Done,
}

/// The form a new vacancy is typed into, one line per field.
pub struct VacancyForm {
    stage: Field,
    company_name: String,
    specialization: String,
    conditions: String,
    sallary: String,
    worker_specialization: String,
    work_exp_years: String,
    education: String,
    education_typed: String,
}

/// What the form holds, as plain values: the field asked next and each line
/// as it was typed (`education_typed` gathers every education line typed,
/// for the pattern check).
pub struct FormModel {
    pub stage: Field,
    pub company_name: Seq<char>,
    pub specialization: Seq<char>,
    pub conditions: Seq<char>,
    pub sallary: Seq<char>,
    pub worker_specialization: Seq<char>,
    pub work_exp_years: Seq<char>,
    pub education: Seq<char>,
    pub education_typed: Seq<char>,
}

impl View for VacancyForm {
    type V = FormModel;

    closed spec fn view(&self) -> FormModel {
        FormModel {
            stage: self.stage,
            company_name: self.company_name@,
            specialization: self.specialization@,
            conditions: self.conditions@,
            sallary: self.sallary@,
            worker_specialization: self.worker_specialization@,
            work_exp_years: self.work_exp_years@,
            education: self.education@,
            education_typed: self.education_typed@,
        }
    }
}

/// The form after line `l` is typed as the answer to the field it asks.
/// When the worker's specialization is blank once trimmed, the years of
/// experience are not asked and are `0`.
pub open spec fn answered(f: FormModel, l: Seq<char>) -> FormModel {
    match f.stage {
        Field::CompanyName => FormModel { stage: Field::Specialization, company_name: l, ..f },
        Field::Specialization => FormModel { stage: Field::Conditions, specialization: l, ..f },
        Field::Conditions => FormModel { stage: Field::Salary, conditions: l, ..f },
        Field::Salary => FormModel { stage: Field::WorkerSpecialization, sallary: l, ..f },
        Field::WorkerSpecialization => if trimmed(l) != ""@ {
            FormModel { stage: Field::ExperienceYears, worker_specialization: l, ..f }
        } else {
            FormModel {
                stage: Field::Education,
                worker_specialization: l,
                work_exp_years: "0"@,
                ..f
            }
        },
        Field::ExperienceYears => FormModel { stage: Field::Education, work_exp_years: l, ..f },
        Field::Education => FormModel { stage: Field::Done, education: l, ..f },
        Field::Done => f,
    }
}

/// The worker's specialization the form gives: none when the line typed
/// was empty (a blank but non-empty line gives the empty name), else the
/// line trimmed.
pub open spec fn worker_name_of(f: FormModel) -> Option<Seq<char>> {
    if f.worker_specialization == ""@ {
        None
    } else {
        Some(trimmed(f.worker_specialization))
    }
}

/// The pattern the education line must match when it is checked by
/// pattern (the empty text, `school` or `university`, in any case).
pub open spec fn education_pattern() -> Seq<char> {
    "^(?i)(|school|university)$"@
}

/// The menu pattern accepts one digit from 1 to 4 and nothing around it;
/// the number pattern accepts any run of decimal digits, the empty run
/// included, and nothing around it.
pub proof fn lemma_console_patterns_text()
    ensures
        menu_pattern() == seq!['^', '[', '1', '-', '4', ']', '$'],
        number_pattern() == seq!['^', '[', '1', '-', '9', '0', ']', '*', '$'],
{
    reveal_strlit("^[1-4]$");
    reveal_strlit("^[1-90]*$");
    assert(menu_pattern() =~= seq!['^', '[', '1', '-', '4', ']', '$']);
    assert(number_pattern() =~= seq!['^', '[', '1', '-', '9', '0', ']', '*', '$']);
}

/// The education pattern is anchored at both ends, ignores case, and
/// accepts exactly one of three alternatives: the empty text, `school` or
/// `university`; so a blank education line matches it.
pub proof fn lemma_education_pattern_text()
    ensures
        education_pattern() == seq![
            '^', '(', '?', 'i', ')', '(', '|', 's', 'c', 'h', 'o', 'o', 'l', '|', 'u', 'n', 'i',
            'v', 'e', 'r', 's', 'i', 't', 'y', ')', '$',
        ],
{
    reveal_strlit("^(?i)(|school|university)$");
    assert(education_pattern() =~= seq![
        '^', '(', '?', 'i', ')', '(', '|', 's', 'c', 'h', 'o', 'o', 'l', '|', 'u', 'n', 'i',
        'v', 'e', 'r', 's', 'i', 't', 'y', ')', '$',
    ]);
}

impl VacancyForm {
    /// An empty form, asking for the company's name.
    pub fn new() -> (r: VacancyForm)
        ensures
            r@ == (FormModel {
                stage: Field::CompanyName,
                company_name: Seq::empty(),
                specialization: Seq::empty(),
                conditions: Seq::empty(),
                sallary: Seq::empty(),
                worker_specialization: Seq::empty(),
                work_exp_years: Seq::empty(),
                education: Seq::empty(),
                education_typed: Seq::empty(),
            }),
    {
        VacancyForm {
            stage: Field::CompanyName,
            company_name: String::new(),
            specialization: String::new(),
            conditions: String::new(),
            sallary: String::new(),
            worker_specialization: String::new(),
            work_exp_years: String::new(),
            education: String::new(),
            education_typed: String::new(),
        }
    }

    /// The field the form asks for next.
    pub fn stage(&self) -> (r: Field)
        ensures
            r == self@.stage,
    {
        self.stage
    }

    /// Takes `line` as the answer to the field the form asks.
    pub fn answer(&mut self, line: &str)
        ensures
            final(self)@ == answered(old(self)@, line@),
    {
        proof {
            reveal_strlit("");
            reveal_strlit("0");
        }
        match self.stage {
            Field::CompanyName => {
                self.company_name = String::from_str(line);
                self.stage = Field::Specialization;
            },
            Field::Specialization => {
                self.specialization = String::from_str(line);
                self.stage = Field::Conditions;
            },
            Field::Conditions => {
                self.conditions = String::from_str(line);
                self.stage = Field::Salary;
            },
            Field::Salary => {
                self.sallary = String::from_str(line);
                self.stage = Field::WorkerSpecialization;
            },
            Field::WorkerSpecialization => {
                self.worker_specialization = String::from_str(line);
                if !same_text(trim(line), "") {
                    self.stage = Field::ExperienceYears;
                } else {
                    self.work_exp_years = String::from_str("0");
                    self.stage = Field::Education;
                }
            },
            Field::ExperienceYears => {
                self.work_exp_years = String::from_str(line);
                self.stage = Field::Education;
            },
            Field::Education => {
                self.education = String::from_str(line);
                self.stage = Field::Done;
            },
            Field::Done => {},
        }
    }

    /// Takes `line` as more of the education, checked by pattern: the
    /// line is added to every education line typed before, the whole is
    /// trimmed and searched with the education pattern, and a match
    /// becomes the education and fills the form. Returns whether it
    /// matched, or `None` (with the lines kept) when the `regex` crate
    /// refuses the pattern.
    pub fn answer_education_checked(&mut self, line: &str) -> (r: Option<bool>)
        requires
            old(self)@.stage == Field::Education,
        ensures
            final(self)@.education_typed == old(self)@.education_typed + line@,
            r is None <==> !regex_valid(education_pattern()),
            match regex_first_match(education_pattern(), trimmed(final(self)@.education_typed)) {
                Some(m) if r is Some => r == Some(true) && final(self)@ == (FormModel {
                    stage: Field::Done,
                    education: m,
                    education_typed: final(self)@.education_typed,
                    ..old(self)@
                }),
                _ => (r is None || r == Some(false)) && final(self)@ == (FormModel {
                    education_typed: final(self)@.education_typed,
                    ..old(self)@
                }),
            },
    {
        self.education_typed.append(line);
        match regex_find("^(?i)(|school|university)$", trim(self.education_typed.as_str())) {
            None => None,
            Some(None) => Some(false),
            Some(Some(m)) => {
                self.education = m;
                self.stage = Field::Done;
                Some(true)
            },
        }
    }

    /// The vacancy the filled form makes: every line trimmed, the worker's
    /// specialization as `worker_name_of` gives it.
    pub fn submit(&self) -> (r: Result<agency::Vacancy, agency::VacancyCreationError>)
        requires
            self@.stage == Field::Done,
        ensures
            agency::creation_agrees(
                r,
                trimmed(self@.company_name),
                trimmed(self@.specialization),
                trimmed(self@.conditions),
                trimmed(self@.sallary),
                worker_name_of(self@),
                trimmed(self@.work_exp_years),
                trimmed(self@.education),
            ),
    {
        let worker = self.worker_name();
        agency::Vacancy::new(
            trim(self.company_name.as_str()),
            trim(self.specialization.as_str()),
            trim(self.conditions.as_str()),
            trim(self.sallary.as_str()),
            worker,
            trim(self.work_exp_years.as_str()),
            trim(self.education.as_str()),
        )
    }

    /// The vacancy with languages and car the filled form makes: as
    /// `submit`, with no languages and no car.
    pub fn submit_extended(&self) -> (r: Result<agency_ext::Vacancy, agency::VacancyCreationError>)
        requires
            self@.stage == Field::Done,
        ensures
            agency_ext::creation_agrees(
                r,
                trimmed(self@.company_name),
                trimmed(self@.specialization),
                trimmed(self@.conditions),
                trimmed(self@.sallary),
                worker_name_of(self@),
                trimmed(self@.work_exp_years),
                trimmed(self@.education),
                None,
                false,
            ),
    {
        let worker = self.worker_name();
        agency_ext::Vacancy::new(
            trim(self.company_name.as_str()),
            trim(self.specialization.as_str()),
            trim(self.conditions.as_str()),
            trim(self.sallary.as_str()),
            worker,
            trim(self.work_exp_years.as_str()),
            trim(self.education.as_str()),
            None,
            false,
        )
    }

    fn worker_name(&self) -> (r: Option<String>)
        ensures
            option_text(r) == worker_name_of(self@),
    {
        proof {
            reveal_strlit("");
        }
        if same_text(self.worker_specialization.as_str(), "") {
            None
        } else {
            Some(String::from_str(trim(self.worker_specialization.as_str())))
        }
    }
}

} // verus!
