use vacancies::agency::VacancyTrait as _;
use vacancies::agency_ext::{default_vacancies, experienced_english_teachers, numbered_listing, Education, Vacancy, VacancyCreationError, VacancyTrait};
use vacancies::generic_container::GenericContainer;
use vacancies::utils::sort_by_company_name;

#[test]
fn getters_fall_back_to_defaults() {
    let v = Vacancy::new("A", "B", "C", "10", None, "5", "", None, false).unwrap();
    assert_eq!(v.worker_specialization(), "");
    assert_eq!(v.worker_exp_years(), 0);
    assert_eq!(v.worker_languages(), "");
    assert!(!v.worker_owns_car());
    let v = Vacancy::new("A", "B", "C", "10", Some("Teacher".to_owned()), "5", "school", Some("English".to_owned()), true).unwrap();
    assert_eq!(v.worker_specialization(), "Teacher");
    assert_eq!(v.worker_exp_years(), 5);
    assert_eq!(v.worker_languages(), "English");
    assert!(v.worker_owns_car());
    assert_eq!(*v.education(), Education::School);
}

#[test]
fn new_errors_as_the_basic_vacancy() {
    assert!(matches!(Vacancy::new("A", "B", "C", "10", None, "x", "", None, true), Err(VacancyCreationError::ParsingExperience(_))));
    assert!(matches!(Vacancy::new("A", "B", "C", "", None, "1", "", None, true), Err(VacancyCreationError::ParsingSallary(_))));
    assert!(matches!(Vacancy::new("A", "B", "C", "1", None, "1", "kindergarten", None, true), Err(VacancyCreationError::ParsingEducationString(_))));
}

#[test]
fn default_vacancies_hold_teachers() {
    let d = default_vacancies();
    assert_eq!(d.len(), 3);
    assert_eq!(d[0].worker_specialization(), "Educator");
    assert_eq!(d[1].specialization(), "");
    assert_eq!(d[2].worker_languages(), "German,English");
    assert_eq!(d[2].render(), "Company3: PR(Conditions3) - 19100$ university");
}

#[test]
fn filter_keeps_experienced_english_teachers() {
    let c = GenericContainer::new(default_vacancies());
    let found = experienced_english_teachers(c).unwrap();
    let names: Vec<&str> = found.iter().map(|v| v.company_name()).collect();
    assert_eq!(names, vec!["Company2", "Company3"]);
}

#[test]
fn filter_checks_every_condition() {
    let mk = |spec: &str, exp: &str, langs: &str, car: bool| {
        Vacancy::new("X", "Y", "Z", "1", Some(spec.to_owned()), exp, "", Some(langs.to_owned()), car).unwrap()
    };
    let c = GenericContainer::new(vec![
        mk("TEACHER of maths", "11", "english", true),
        mk("teacher", "10", "English", true),
        mk("teacher", "20", "French", true),
        mk("teacher", "20", "English", false),
        mk("driver", "20", "English", true),
        mk("Educator", "30", "ENGLISH,German", true),
    ]);
    let found = experienced_english_teachers(c).unwrap();
    let years: Vec<u16> = found.iter().map(|v| v.worker_exp_years()).collect();
    assert_eq!(years, vec![11, 30]);
}

#[test]
fn extended_vacancies_sort_and_list() {
    let c = GenericContainer::new(default_vacancies());
    let s = sort_by_company_name(&c);
    let names: Vec<&str> = s.items().iter().map(|v| v.company_name()).collect();
    assert_eq!(names, vec!["Company1", "Company2", "Company3"]);
    let lines = numbered_listing(s.items());
    assert_eq!(lines[0], "(1) Company1: (Conditions2) - 69100$ school");
}

#[test]
fn sort_by_specialization_extended_scenario() {
    let c = GenericContainer::new(default_vacancies());
    let s = vacancies::utils::sort_by_specialization(&c);
    let specs: Vec<&str> = s.items().iter().map(|v| v.specialization()).collect();
    let names: Vec<&str> = s.items().iter().map(|v| v.company_name()).collect();
    assert_eq!(specs, vec!["", "IT", "PR"]);
    assert_eq!(names, vec!["Company1", "Company2", "Company3"]);
}

#[test]
fn extended_clone_keeps_everything() {
    let v = default_vacancies().remove(0);
    let w = v.clone();
    assert_eq!(w.worker_languages(), v.worker_languages());
    assert_eq!(w.worker_exp_years(), 12);
    assert!(w.worker_owns_car());
}
