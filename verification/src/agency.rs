//! Vacancies of an employment agency: the record, how it is built from the
//! text a user types, and how it is shown.
use vstd::prelude::*;
use crate::text::{ascii_lower, decimal, lowered, scan_digits, parse_spec, parse_u16, parse_usize, render_usize, same_text, to_lowercase};

verus! {

/// The schooling a vacancy asks of a worker, from least to most.
#[derive(Debug, PartialEq, Eq, Clone, Copy, PartialOrd, Ord, Structural)]
pub enum Education {
    NoneRequired,
    School,
    University,
}

/// The text an education is shown as.
pub open spec fn education_text(e: Education) -> Seq<char> {
    match e {
        Education::NoneRequired => ""@,
        Education::School => "school"@,
        Education::University => "university"@,
    }
}

/// The place of an education in its order (`NoneRequired < School < University`).
pub open spec fn education_rank(e: Education) -> u64 {
    match e {
        Education::NoneRequired => 0,
        Education::School => 1,
        Education::University => 2,
    }
}

/// The education a lowercased text names: the empty text, `school` or
/// `university`.
pub open spec fn education_named(t: Seq<char>) -> Option<Education> {
    if t == ""@ {
        Some(Education::NoneRequired)
    } else if t == "school"@ {
        Some(Education::School)
    } else if t == "university"@ {
        Some(Education::University)
    } else {
        None
    }
}

impl Education {
    /// The text the education is shown as.
    pub fn as_str(&self) -> (r: &'static str)
        ensures
            r@ == education_text(*self),
    {
        match self {
            Education::NoneRequired => "",
            Education::School => "school",
            Education::University => "university",
        }
    }

    /// The place of the education in its order.
    pub fn rank(&self) -> (r: u64)
        ensures
            r == education_rank(*self),
    {
        match self {
            Education::NoneRequired => 0,
            Education::School => 1,
            Education::University => 2,
        }
    }

    /// The education that a lowercased text names, if any.
    pub fn from_lowercase(t: &str) -> (r: Option<Education>)
        ensures
            r == education_named(t@),
    {
        if same_text(t, "") {
            Some(Education::NoneRequired)
        } else if same_text(t, "school") {
            Some(Education::School)
        } else if same_text(t, "university") {
            Some(Education::University)
        } else {
            None
        }
    }
}

/// Why the text of a vacancy could not be made into one; each variant keeps
/// the text that was refused.
#[derive(Debug)]
pub enum VacancyCreationError {
    ParsingEducationString(String),
    ParsingSallary(String),
    ParsingExperience(String),
}

#[derive(Debug, Clone)]
struct WorkerRequirements {
    specialization: Option<WorkerSpecialization>,
    education: Education,
}

#[derive(Debug, Clone)]
struct WorkerSpecialization {
    specialization_name: String,
    work_exp_years: u16,
}

/// A vacancy: the company, the post, its conditions, the salary and what the
/// worker must bring.
#[derive(Debug)]
pub struct Vacancy {
    company_name: String,
    specialization: String,
    conditions: String,
    sallary: usize,
    worker_requirements: WorkerRequirements,
}

impl Clone for Vacancy {
    /// A copy holding the same texts and values.
    fn clone(&self) -> (r: Self)
        ensures
            r@ == self@,
    {
        let specialization = match &self.worker_requirements.specialization {
            Some(w) => Some(
                WorkerSpecialization {
                    specialization_name: w.specialization_name.clone(),
                    work_exp_years: w.work_exp_years,
                },
            ),
            None => None,
        };
        Vacancy {
            company_name: self.company_name.clone(),
            specialization: self.specialization.clone(),
            conditions: self.conditions.clone(),
            sallary: self.sallary,
            worker_requirements: WorkerRequirements {
                specialization,
                education: self.worker_requirements.education,
            },
        }
    }
}

/// A clone of a vacancy holds what the vacancy holds.
pub proof fn lemma_clone_keeps_view(a: Vacancy, b: Vacancy)
    requires
        cloned(a, b),
    ensures
        b@ == a@,
{
}

/// What a vacancy holds, as plain values.
pub struct VacancyModel {
    pub company_name: Seq<char>,
    pub specialization: Seq<char>,
    pub conditions: Seq<char>,
    pub sallary: int,
    /// The specialization asked of the worker and the years of experience in it.
    pub worker_specialization: Option<(Seq<char>, int)>,
    pub education: Education,
}

impl View for Vacancy {
    type V = VacancyModel;

    closed spec fn view(&self) -> VacancyModel {
        VacancyModel {
            company_name: self.company_name@,
            specialization: self.specialization@,
            conditions: self.conditions@,
            sallary: self.sallary as int,
            worker_specialization: match self.worker_requirements.specialization {
                Some(w) => Some((w.specialization_name@, w.work_exp_years as int)),
                None => None,
            },
            education: self.worker_requirements.education,
        }
    }
}

/// The line a vacancy is shown as:
/// `company: specialization(conditions) - salary$ education`.
pub open spec fn vacancy_text(m: VacancyModel) -> Seq<char> {
    m.company_name + ": "@ + m.specialization + "("@ + m.conditions + ") - "@ + decimal(
        m.sallary as nat,
    ) + "$ "@ + education_text(m.education)
}

/// The vacancy that `Vacancy::new` makes of its arguments once the numbers
/// and the education are read.
pub open spec fn vacancy_model(
    company_name: Seq<char>,
    specialization: Seq<char>,
    conditions: Seq<char>,
    sallary: int,
    worker_specialization_name: Option<Seq<char>>,
    work_exp_years: int,
    education: Education,
) -> VacancyModel {
    VacancyModel {
        company_name,
        specialization,
        conditions,
        sallary,
        worker_specialization: match worker_specialization_name {
            Some(name) => Some((name, work_exp_years)),
            None => None,
        },
        education,
    }
}

/// The text of an optional string.
pub open spec fn option_text(o: Option<String>) -> Option<Seq<char>> {
    match o {
        Some(s) => Some(s@),
        None => None,
    }
}

/// `r` is what making a vacancy of these texts gives: the years of
/// experience are read first (as a `u16`), then the salary (as a `usize`),
/// then the education, matched in lowercase against the empty text, `school`
/// and `university`; the first that fails is the error, holding the text
/// that was refused.
pub open spec fn creation_agrees(
    r: Result<Vacancy, VacancyCreationError>,
    company_name: Seq<char>,
    specialization: Seq<char>,
    conditions: Seq<char>,
    sallary: Seq<char>,
    worker_specialization_name: Option<Seq<char>>,
    work_exp_years: Seq<char>,
    education: Seq<char>,
) -> bool {
    match parse_spec(work_exp_years, u16::MAX as int) {
        Err(_) => r matches Err(VacancyCreationError::ParsingExperience(t)) && t@ == work_exp_years,
        Ok(years) => match parse_spec(sallary, usize::MAX as int) {
            Err(_) => r matches Err(VacancyCreationError::ParsingSallary(t)) && t@ == sallary,
            Ok(pay) => match education_named(lowered(education)) {
                None => r matches Err(VacancyCreationError::ParsingEducationString(t)) && t@
                    == education,
                Some(e) => r matches Ok(v) && v@ == vacancy_model(
                    company_name,
                    specialization,
                    conditions,
                    pay,
                    worker_specialization_name,
                    years,
                    e,
                ),
            },
        },
    }
}

/// What a vacancy is asked for when it is sorted and shown.
pub trait VacancyTrait {
    /// The company's name.
    spec fn company_name_spec(&self) -> Seq<char>;

    /// The post's specialization.
    spec fn specialization_spec(&self) -> Seq<char>;

    /// The education asked of the worker.
    spec fn education_spec(&self) -> Education;

    fn company_name(&self) -> (r: &str)
        ensures
            r@ == self.company_name_spec(),
    ;

    fn specialization(&self) -> (r: &str)
        ensures
            r@ == self.specialization_spec(),
    ;

    fn education(&self) -> (r: &Education)
        ensures
            *r == self.education_spec(),
    ;
}

impl VacancyTrait for Vacancy {
    open spec fn company_name_spec(&self) -> Seq<char> {
        self@.company_name
    }

    open spec fn specialization_spec(&self) -> Seq<char> {
        self@.specialization
    }

    open spec fn education_spec(&self) -> Education {
        self@.education
    }

    fn company_name(&self) -> (r: &str) {
        self.company_name.as_str()
    }

    fn specialization(&self) -> (r: &str) {
        self.specialization.as_str()
    }

    fn education(&self) -> (r: &Education) {
        &self.worker_requirements.education
    }
}

impl Vacancy {
    /// Makes a vacancy from the text a user typed. The years of experience
    /// are read first (as a `u16`), then the salary (as a `usize`), then the
    /// education, which is matched in lowercase against the empty text,
    /// `school` and `university`; the first that fails is the error, holding
    /// the text that was refused.
    pub fn new(
        company_name: &str,
        specialization: &str,
        conditions: &str,
        sallary_string: &str,
        worker_specialization_name: Option<String>,
        work_exp_years_string: &str,
        education_string: &str,
    ) -> (r: Result<Self, VacancyCreationError>)
        ensures
            creation_agrees(
                r,
                company_name@,
                specialization@,
                conditions@,
                sallary_string@,
                option_text(worker_specialization_name),
                work_exp_years_string@,
                education_string@,
            ),
    {
        let work_exp_years: u16 = match parse_u16(work_exp_years_string) {
            Ok(v) => v,
            Err(_) => {
                return Err(
                    VacancyCreationError::ParsingExperience(
                        String::from_str(work_exp_years_string),
                    ),
                );
            },
        };
        let worker_specialization = match worker_specialization_name {
            Some(specialization_name) => Some(
                WorkerSpecialization { specialization_name, work_exp_years },
            ),
            None => None,
        };
        let sallary: usize = match parse_usize(sallary_string) {
            Ok(v) => v,
            Err(_) => {
                return Err(
                    VacancyCreationError::ParsingSallary(String::from_str(sallary_string)),
                );
            },
        };
        let lower = to_lowercase(education_string);
        assert(lower@ == lowered(education_string@));
        let education = match Education::from_lowercase(lower.as_str()) {
            Some(e) => e,
            None => {
                return Err(
                    VacancyCreationError::ParsingEducationString(
                        String::from_str(education_string),
                    ),
                );
            },
        };
        Ok(
            Vacancy {
                company_name: String::from_str(company_name),
                specialization: String::from_str(specialization),
                conditions: String::from_str(conditions),
                sallary,
                worker_requirements: WorkerRequirements {
                    specialization: worker_specialization,
                    education,
                },
            },
        )
    }

    /// A vacancy made directly of its parts.
    pub fn from_parts(
        company_name: String,
        specialization: String,
        conditions: String,
        sallary: usize,
        worker_specialization: Option<(String, u16)>,
        education: Education,
    ) -> (r: Vacancy)
        ensures
            r@ == (VacancyModel {
                company_name: company_name@,
                specialization: specialization@,
                conditions: conditions@,
                sallary: sallary as int,
                worker_specialization: match worker_specialization {
                    Some((n, y)) => Some((n@, y as int)),
                    None => None,
                },
                education,
            }),
    {
        let specialization_of_worker = match worker_specialization {
            Some((specialization_name, work_exp_years)) => Some(
                WorkerSpecialization { specialization_name, work_exp_years },
            ),
            None => None,
        };
        Vacancy {
            company_name,
            specialization,
            conditions,
            sallary,
            worker_requirements: WorkerRequirements {
                specialization: specialization_of_worker,
                education,
            },
        }
    }

    /// The conditions of the post.
    pub fn conditions(&self) -> (r: &str)
        ensures
            r@ == self@.conditions,
    {
        self.conditions.as_str()
    }

    /// The salary.
    pub fn sallary(&self) -> (r: usize)
        ensures
            r == self@.sallary,
    {
        self.sallary
    }

    /// The specialization asked of the worker and the years of experience
    /// in it, if one is asked.
    pub fn worker_specialization(&self) -> (r: Option<(&str, u16)>)
        ensures
            match self@.worker_specialization {
                Some((n, y)) => r matches Some((t, z)) && t@ == n && z == y,
                None => r is None,
            },
    {
        match &self.worker_requirements.specialization {
            Some(w) => Some((w.specialization_name.as_str(), w.work_exp_years)),
            None => None,
        }
    }

    /// The line the vacancy is shown as.
    pub fn render(&self) -> (r: String)
        ensures
            r@ == vacancy_text(self@),
    {
        let mut s = String::from_str(self.company_name.as_str());
        s.append(": ");
        s.append(self.specialization.as_str());
        s.append("(");
        s.append(self.conditions.as_str());
        s.append(") - ");
        let pay = render_usize(self.sallary);
        s.append(pay.as_str());
        s.append("$ ");
        s.append(self.worker_requirements.education.as_str());
        s
    }
}

/// The line listing an item as number `k` (counting from 1): `(k) text`.
pub open spec fn numbered_line(k: nat, text: Seq<char>) -> Seq<char> {
    "("@ + decimal(k) + ") "@ + text
}

/// The vacancies as listed, one numbered line each, numbers from 1.
pub fn numbered_listing(items: &Vec<Vacancy>) -> (r: Vec<String>)
    ensures
        r@.len() == items@.len(),
        forall|i: int|
            0 <= i < r@.len() ==> (#[trigger] r@[i])@ == numbered_line(
                (i + 1) as nat,
                vacancy_text(items@[i]@),
            ),
{
    let mut r: Vec<String> = Vec::new();
    let mut i: usize = 0;
    while i < items.len()
        invariant
            i <= items@.len(),
            r@.len() == i,
            forall|j: int|
                0 <= j < i ==> (#[trigger] r@[j])@ == numbered_line(
                    (j + 1) as nat,
                    vacancy_text(items@[j]@),
                ),
        decreases items@.len() - i,
    {
        let mut line = String::from_str("(");
        let number = render_usize(i + 1);
        line.append(number.as_str());
        line.append(") ");
        let text = items[i].render();
        line.append(text.as_str());
        r.push(line);
        i = i + 1;
    }
    r
}

/// The three vacancies the agency starts with.
pub fn default_vacancies() -> (r: Vec<Vacancy>)
    ensures
        r@.len() == 3,
        r@[0]@ == vacancy_model("Company2"@, "IT"@, "Conditions1"@, 149200, Some("IT"@), 12, Education::NoneRequired),
        r@[1]@ == vacancy_model("Company1"@, "Waiter"@, "Conditions2"@, 69100, None, 1, Education::School),
        r@[2]@ == vacancy_model("Company3"@, "Teacher"@, "Conditions3"@, 19100, None, 24, Education::University),
{
    proof {
        reveal_strlit("149200");
        reveal_strlit("12");
        reveal_strlit("69100");
        reveal_strlit("1");
        reveal_strlit("19100");
        reveal_strlit("24");
        reveal_strlit("");
        reveal_strlit("school");
        reveal_strlit("university");
        reveal_with_fuel(scan_digits, 7);
        assert("school"@.map_values(|c: char| ascii_lower(c)) =~= "school"@);
        assert("university"@.map_values(|c: char| ascii_lower(c)) =~= "university"@);
        assert(""@.map_values(|c: char| ascii_lower(c)) =~= ""@);
    }
    let first = Vacancy::new(
        "Company2",
        "IT",
        "Conditions1",
        "149200",
        Some(String::from_str("IT")),
        "12",
        "",
    ).expect("Bad vacancy input ");
    let second = Vacancy::new(
        "Company1",
        "Waiter",
        "Conditions2",
        "69100",
        None,
        "1",
        "school",
    ).expect("Bad vacancy input ");
    let third = Vacancy::new(
        "Company3",
        "Teacher",
        "Conditions3",
        "19100",
        None,
        "24",
        "university",
    ).expect("Bad vacancy input");
    let mut r: Vec<Vacancy> = Vec::new();
    r.push(first);
    r.push(second);
    r.push(third);
    r
}

} // verus!
