use vacancies::agency::{default_vacancies, numbered_listing, Education, Vacancy, VacancyCreationError, VacancyTrait};
use vacancies::generic_container::GenericContainer;
use vacancies::utils::{sort_by_company_name, sort_by_education, sort_by_specialization};

fn vacancy(company: &str, spec: &str, sal: &str, edu: &str) -> Vacancy {
    Vacancy::new(company, spec, "c", sal, None, "0", edu).unwrap()
}

#[test]
fn new_builds_a_vacancy() {
    let v = Vacancy::new("Company2", "IT", "Conditions1", "149200", Some("IT".to_owned()), "12", "").unwrap();
    assert_eq!(v.company_name(), "Company2");
    assert_eq!(v.specialization(), "IT");
    assert_eq!(v.conditions(), "Conditions1");
    assert_eq!(v.sallary(), 149200);
    assert_eq!(v.worker_specialization(), Some(("IT", 12)));
    assert_eq!(*v.education(), Education::NoneRequired);
}

#[test]
fn new_reads_education_in_any_case() {
    let v = Vacancy::new("A", "B", "C", "1", None, "0", "SchoOL").unwrap();
    assert_eq!(*v.education(), Education::School);
    let v = Vacancy::new("A", "B", "C", "1", None, "0", "UNIVERSITY").unwrap();
    assert_eq!(*v.education(), Education::University);
    assert_eq!(v.worker_specialization(), None);
}

#[test]
fn new_reports_experience_first() {
    match Vacancy::new("A", "B", "C", "x", None, "y", "z") {
        Err(VacancyCreationError::ParsingExperience(t)) => assert_eq!(t, "y"),
        other => panic!("{:?}", other),
    }
}

#[test]
fn new_reports_salary_second() {
    match Vacancy::new("A", "B", "C", "x", None, "70000", "z") {
        Err(VacancyCreationError::ParsingExperience(t)) => assert_eq!(t, "70000"),
        other => panic!("{:?}", other),
    }
    match Vacancy::new("A", "B", "C", "-5", None, "3", "z") {
        Err(VacancyCreationError::ParsingSallary(t)) => assert_eq!(t, "-5"),
        other => panic!("{:?}", other),
    }
}

#[test]
fn new_reports_education_last() {
    match Vacancy::new("A", "B", "C", "5", None, "3", "college") {
        Err(VacancyCreationError::ParsingEducationString(t)) => assert_eq!(t, "college"),
        other => panic!("{:?}", other),
    }
    match Vacancy::new("A", "B", "C", "5", None, "3", " school") {
        Err(VacancyCreationError::ParsingEducationString(t)) => assert_eq!(t, " school"),
        other => panic!("{:?}", other),
    }
}

#[test]
fn render_shows_the_vacancy() {
    let v = Vacancy::new("Company1", "Waiter", "Conditions2", "69100", None, "1", "school").unwrap();
    assert_eq!(v.render(), "Company1: Waiter(Conditions2) - 69100$ school");
    let v = Vacancy::new("Company2", "IT", "Conditions1", "149200", Some("IT".to_owned()), "12", "").unwrap();
    assert_eq!(v.render(), "Company2: IT(Conditions1) - 149200$ ");
}

#[test]
fn education_texts_and_order() {
    assert_eq!(Education::NoneRequired.as_str(), "");
    assert_eq!(Education::School.as_str(), "school");
    assert_eq!(Education::University.as_str(), "university");
    assert!(Education::NoneRequired < Education::School);
    assert!(Education::School < Education::University);
    assert_eq!(Education::from_lowercase("school"), Some(Education::School));
    assert_eq!(Education::from_lowercase("School"), None);
}

#[test]
fn default_vacancies_are_three() {
    let d = default_vacancies();
    assert_eq!(d.len(), 3);
    assert_eq!(d[0].render(), "Company2: IT(Conditions1) - 149200$ ");
    assert_eq!(d[1].render(), "Company1: Waiter(Conditions2) - 69100$ school");
    assert_eq!(d[2].render(), "Company3: Teacher(Conditions3) - 19100$ university");
    assert_eq!(d[0].worker_specialization(), Some(("IT", 12)));
}

#[test]
fn listing_numbers_from_one() {
    let lines = numbered_listing(&default_vacancies());
    assert_eq!(lines[0], "(1) Company2: IT(Conditions1) - 149200$ ");
    assert_eq!(lines[2], "(3) Company3: Teacher(Conditions3) - 19100$ university");
}

fn names(c: &GenericContainer<Vacancy>) -> Vec<String> {
    c.items().iter().map(|v| format!("{}/{}", v.company_name(), v.sallary())).collect()
}

#[test]
fn sort_by_company_name_orders_names() {
    let c = GenericContainer::new(default_vacancies());
    let s = sort_by_company_name(&c);
    assert_eq!(names(&s), vec!["Company1/69100", "Company2/149200", "Company3/19100"]);
    assert_eq!(c.len(), 3);
}

#[test]
fn sorts_are_stable() {
    let c = GenericContainer::new(vec![
        vacancy("b", "x", "1", "school"),
        vacancy("a", "y", "2", ""),
        vacancy("b", "x", "3", "university"),
        vacancy("a", "x", "4", "school"),
    ]);
    assert_eq!(names(&sort_by_company_name(&c)), vec!["a/2", "a/4", "b/1", "b/3"]);
    assert_eq!(names(&sort_by_specialization(&c)), vec!["b/1", "b/3", "a/4", "a/2"]);
    assert_eq!(names(&sort_by_education(&c)), vec!["a/2", "b/1", "a/4", "b/3"]);
}

#[test]
fn sort_by_name_compares_as_str_does() {
    let words = ["Zeta", "alpha", "Äpfel", "apple", "", "a", "ab"];
    let c = GenericContainer::new(words.iter().map(|w| vacancy(w, "s", "1", "")).collect());
    let s = sort_by_company_name(&c);
    let mut expected: Vec<&str> = words.to_vec();
    expected.sort();
    let got: Vec<&str> = s.items().iter().map(|v| v.company_name()).collect();
    assert_eq!(got, expected);
}

#[test]
fn sort_by_education_uses_the_enum_order() {
    let c = GenericContainer::new(default_vacancies());
    let s = sort_by_education(&c);
    let got: Vec<Education> = s.items().iter().map(|v| *v.education()).collect();
    assert_eq!(got, vec![Education::NoneRequired, Education::School, Education::University]);
}

#[test]
fn sorting_an_empty_container() {
    let c: GenericContainer<Vacancy> = GenericContainer::new(Vec::new());
    assert_eq!(sort_by_company_name(&c).len(), 0);
}

fn mk(c: &str, s: &str, e: &str) -> Vacancy {
    Vacancy::new(c, s, "Cond", "1", None, "0", e).unwrap()
}

fn companies_and_specs(c: &GenericContainer<Vacancy>) -> (Vec<String>, Vec<String>) {
    (
        c.items().iter().map(|v| v.company_name().to_owned()).collect(),
        c.items().iter().map(|v| v.specialization().to_owned()).collect(),
    )
}

#[test]
fn sort_by_company_name_scenario() {
    let data = GenericContainer::new(vec![mk("Company2", "IT", ""), mk("Company1", "Waiter", "school"), mk("Company3", "Teacher", "university")]);
    let r = sort_by_company_name(&data);
    assert_eq!(r.len(), 3);
    assert_eq!(companies_and_specs(&r), (vec!["Company1".to_owned(), "Company2".to_owned(), "Company3".to_owned()], vec!["Waiter".to_owned(), "IT".to_owned(), "Teacher".to_owned()]));
}

#[test]
fn sort_by_company_name_byte_order_and_ties() {
    let data = GenericContainer::new(vec![mk("alpha", "1", ""), mk("Zeta", "2", ""), mk("Beta", "3", ""), mk("Zeta", "4", "")]);
    let r = sort_by_company_name(&data);
    assert_eq!(companies_and_specs(&r), (vec!["Beta".to_owned(), "Zeta".to_owned(), "Zeta".to_owned(), "alpha".to_owned()], vec!["3".to_owned(), "2".to_owned(), "4".to_owned(), "1".to_owned()]));
    assert_eq!(companies_and_specs(&data).0, vec!["alpha", "Zeta", "Beta", "Zeta"]);
}

#[test]
fn sort_by_education_scenario() {
    let data = GenericContainer::new(vec![mk("A", "1", "university"), mk("B", "2", ""), mk("C", "3", "school"), mk("D", "4", "")]);
    let r = sort_by_education(&data);
    assert_eq!(companies_and_specs(&r).0, vec!["B", "D", "C", "A"]);
}

#[test]
fn sorting_twice_changes_nothing() {
    let data = GenericContainer::new(vec![mk("b", "x", "school"), mk("a", "y", ""), mk("b", "w", "university"), mk("a", "x", "school")]);
    for sort in [sort_by_company_name::<Vacancy>, sort_by_specialization::<Vacancy>, sort_by_education::<Vacancy>].iter() {
        let once = sort(&data);
        let twice = sort(&once);
        let a: Vec<String> = once.items().iter().map(|v| v.render()).collect();
        let b: Vec<String> = twice.items().iter().map(|v| v.render()).collect();
        assert_eq!(a, b);
    }
}

#[test]
fn clone_keeps_the_vacancy() {
    let v = Vacancy::new("Company2", "IT", "Conditions1", "149200", Some("IT".to_owned()), "12", "").unwrap();
    let w = v.clone();
    assert_eq!(w.render(), v.render());
    assert_eq!(w.worker_specialization(), Some(("IT", 12)));
}
