use vacancies::agency::{default_vacancies, Education, VacancyCreationError, VacancyTrait};
use vacancies::agency_ext::VacancyTrait as ExtVacancyTrait;
use vacancies::console::{menu_choice, menu_command, remove_by_matched_number, remove_by_typed_number, remove_from_list, Field, MenuChoice, MenuCommand, Removal, VacancyForm};
use vacancies::generic_container::GenericContainer;

#[test]
fn menu_command_reads_trimmed_digits() {
    assert_eq!(menu_command("1\n"), MenuCommand::ListAll);
    assert_eq!(menu_command("  2 "), MenuCommand::AddVacancy);
    assert_eq!(menu_command("3"), MenuCommand::RemoveVacancy);
    assert_eq!(menu_command("4\r\n"), MenuCommand::Exit);
    assert_eq!(menu_command("5"), MenuCommand::Unrecognized);
    assert_eq!(menu_command(""), MenuCommand::Unrecognized);
    assert_eq!(menu_command("12"), MenuCommand::Unrecognized);
}

#[test]
fn menu_choice_goes_through_the_pattern() {
    assert_eq!(menu_choice("1\n"), Some(MenuChoice::Command(MenuCommand::ListAll)));
    assert_eq!(menu_choice(" 4 "), Some(MenuChoice::Command(MenuCommand::Exit)));
    assert_eq!(menu_choice("5"), Some(MenuChoice::NoMatch));
    assert_eq!(menu_choice("13"), Some(MenuChoice::NoMatch));
    assert_eq!(menu_choice("x"), Some(MenuChoice::NoMatch));
}

fn three() -> GenericContainer<u8> {
    GenericContainer::new(vec![1, 2, 3])
}

#[test]
fn typed_number_removal() {
    let mut c = three();
    assert_eq!(remove_by_typed_number(&mut c, "x\n"), Removal::NotANumber);
    assert_eq!(remove_by_typed_number(&mut c, "4\n"), Removal::TooLarge);
    assert_eq!(remove_by_typed_number(&mut c, "0\n"), Removal::Zero);
    assert_eq!(remove_by_typed_number(&mut c, "1\n"), Removal::Refused);
    assert_eq!(c.items(), &vec![1, 2, 3]);
    assert_eq!(remove_by_typed_number(&mut c, " 3 \n"), Removal::Removed);
    assert_eq!(c.items(), &vec![1, 3]);
}

#[test]
fn matched_number_removal() {
    let mut c = three();
    assert_eq!(remove_by_matched_number(&mut c, "x\n"), Some(Removal::NotANumber));
    assert_eq!(remove_by_matched_number(&mut c, "\n"), Some(Removal::Unparsable));
    assert_eq!(remove_by_matched_number(&mut c, "99999999999999999999999"), Some(Removal::Unparsable));
    assert_eq!(remove_by_matched_number(&mut c, "0"), Some(Removal::Zero));
    assert_eq!(remove_by_matched_number(&mut c, "7"), Some(Removal::TooLarge));
    assert_eq!(remove_by_matched_number(&mut c, "2"), Some(Removal::Removed));
    assert_eq!(c.items(), &vec![2, 3]);
}

#[test]
fn list_removal_removes_the_numbered_item() {
    let mut v = vec!['a', 'b', 'c'];
    assert_eq!(remove_from_list(&mut v, "1\n"), Removal::Removed);
    assert_eq!(v, vec!['b', 'c']);
    assert_eq!(remove_from_list(&mut v, "3\n"), Removal::TooLarge);
    assert_eq!(remove_from_list(&mut v, "0"), Removal::Zero);
    assert_eq!(remove_from_list(&mut v, "two"), Removal::NotANumber);
    assert_eq!(v, vec!['b', 'c']);
}

fn fill(form: &mut VacancyForm, lines: &[&str]) {
    for l in lines {
        form.answer(l);
    }
}

#[test]
fn form_asks_experience_only_for_a_specialization() {
    let mut f = VacancyForm::new();
    assert_eq!(f.stage(), Field::CompanyName);
    fill(&mut f, &["Acme\n", "IT\n", "remote\n", "1000\n", "Rust dev\n"]);
    assert_eq!(f.stage(), Field::ExperienceYears);
    fill(&mut f, &["3\n", "University\n"]);
    assert_eq!(f.stage(), Field::Done);
    let v = f.submit().unwrap();
    assert_eq!(v.render(), "Acme: IT(remote) - 1000$ university");
    assert_eq!(v.worker_specialization(), Some(("Rust dev", 3)));

    let mut g = VacancyForm::new();
    fill(&mut g, &["Acme\n", "IT\n", "remote\n", "1000\n", "  \n"]);
    assert_eq!(g.stage(), Field::Education);
    fill(&mut g, &["\n"]);
    let v = g.submit().unwrap();
    assert_eq!(v.worker_specialization(), Some(("", 0)));
    assert_eq!(*v.education(), Education::NoneRequired);
}

#[test]
fn form_without_worker_line() {
    let mut f = VacancyForm::new();
    fill(&mut f, &["Acme", "IT", "remote", "1000", "", "school"]);
    assert_eq!(f.stage(), Field::Done);
    let v = f.submit().unwrap();
    assert_eq!(v.worker_specialization(), None);
}

#[test]
fn form_reports_bad_salary() {
    let mut f = VacancyForm::new();
    fill(&mut f, &["Acme\n", "IT\n", "remote\n", "lots\n", "\n", "school\n"]);
    match f.submit() {
        Err(VacancyCreationError::ParsingSallary(t)) => assert_eq!(t, "lots"),
        other => panic!("{:?}", other),
    }
}

#[test]
fn form_checks_education_by_pattern() {
    let mut f = VacancyForm::new();
    fill(&mut f, &["Acme\n", "IT\n", "remote\n", "1000\n", "Teacher\n", "12\n"]);
    assert_eq!(f.stage(), Field::Education);
    assert_eq!(f.answer_education_checked("college\n"), Some(false));
    assert_eq!(f.stage(), Field::Education);
    assert_eq!(f.answer_education_checked("school\n"), Some(false));
    let mut g = VacancyForm::new();
    fill(&mut g, &["Acme\n", "IT\n", "remote\n", "1000\n", "Teacher\n", "12\n"]);
    assert_eq!(g.answer_education_checked("SCHOOL\n"), Some(true));
    assert_eq!(g.stage(), Field::Done);
    let v = g.submit_extended().unwrap();
    assert_eq!(v.worker_exp_years(), 12);
    assert!(!v.worker_owns_car());
    assert_eq!(v.worker_languages(), "");
}

#[test]
fn default_vacancies_listed_in_console_order() {
    let c = GenericContainer::new(default_vacancies());
    assert_eq!(c.items()[0].company_name(), "Company2");
}
