use user_registry::command::{add, execute, get, remove, show, write_user, Command, Error, Outcome};
use user_registry::gui::{title, App, Message, Page, State};
use user_registry::{Data, User};

fn first_user() -> User {
    User {
        first_name: String::from("firstName"),
        last_name: String::from("firstSurname"),
        email: String::from("firstEmail"),
        phone_number: String::from("0123456789"),
    }
}

fn second_user() -> User {
    User {
        first_name: String::from("secondName"),
        last_name: String::from("secondSurname"),
        email: String::from("secondEmail"),
        phone_number: String::from("9786543210"),
    }
}

#[test]
fn write_user_and_check_buffer() {
    let user = first_user();
    let mut writer = String::new();
    write_user(&user, 7, &mut writer);

    assert_eq!(
        writer.as_bytes(),
        b"User 7:
    First name: firstName
    Last name: firstSurname
    Email: firstEmail
    Phone number: 0123456789\n"
    );
}

#[test]
fn show_data_and_check_buffer() {
    let mut data = Data::new();
    data.add_user(first_user());
    data.add_user(second_user());

    let mut writer = String::new();
    show(&data, &mut writer);

    assert_eq!(
        writer.as_bytes(),
        b"User 0:
    First name: firstName
    Last name: firstSurname
    Email: firstEmail
    Phone number: 0123456789

User 1:
    First name: secondName
    Last name: secondSurname
    Email: secondEmail
    Phone number: 9786543210\n"
    );
}

#[test]
fn write_user_appends_to_what_is_there() {
    let mut writer = String::from(">");
    write_user(&second_user(), 1234567890, &mut writer);
    assert!(writer.starts_with(">User 1234567890:\n"));
    let mut writer = String::new();
    write_user(&second_user(), 0, &mut writer);
    assert!(writer.starts_with("User 0:\n"));
}

#[test]
fn show_orders_by_id_whatever_the_insertion_order() {
    let mut data = Data::new();
    for _ in 0..12 {
        data.add_user(first_user());
    }
    for id in [3usize, 0, 11, 7] {
        data.remove_user(id);
    }
    data.add_user(second_user());
    let mut text = String::new();
    show(&data, &mut text);
    let headings: Vec<&str> = text.lines().filter(|l| l.starts_with("User ")).collect();
    assert_eq!(
        headings,
        vec!["User 0:", "User 1:", "User 2:", "User 4:", "User 5:", "User 6:", "User 8:", "User 9:", "User 10:"]
    );
    assert!(text.contains("\n\nUser 1:\n"));
    assert!(text.ends_with("Phone number: 0123456789\n"));
}

#[test]
fn show_of_an_empty_store_writes_nothing() {
    let mut text = String::new();
    show(&Data::new(), &mut text);
    assert_eq!(text, "");
}

#[test]
fn get_and_remove_report_missing_ids() {
    let mut data = Data::new();
    assert_eq!(add(&mut data, first_user()), 0);
    assert_eq!(get(&data, 0), Ok(first_user()));
    assert_eq!(get(&data, 5), Err(Error::UserNotFound(5)));
    assert_eq!(remove(&mut data, 5), Err(Error::UserNotFound(5)));
    assert_eq!(remove(&mut data, 0), Ok(first_user()));
    assert_eq!(remove(&mut data, 0), Err(Error::UserNotFound(0)));
}

#[test]
fn execute_each_command() {
    let mut data = Data::new();
    let add_john = Command::Add {
        first_name: String::from("John"),
        last_name: String::from("Doe"),
        email: String::from("john@x.com"),
        phone_number: 5551234,
    };
    assert!(matches!(execute(add_john, &mut data), Ok(Outcome::Save)));
    assert_eq!(
        data.user(0),
        Some(&User {
            first_name: String::from("John"),
            last_name: String::from("Doe"),
            email: String::from("john@x.com"),
            phone_number: String::from("5551234"),
        })
    );

    match execute(Command::Get { id: 0 }, &mut data) {
        Ok(Outcome::Print(text)) => assert_eq!(
            text,
            "User 0:\n    First name: John\n    Last name: Doe\n    Email: john@x.com\n    Phone number: 5551234\n"
        ),
        other => panic!("unexpected {other:?}"),
    }
    assert!(matches!(
        execute(Command::Get { id: 3 }, &mut data),
        Err(Error::UserNotFound(3))
    ));

    match execute(Command::Show, &mut data) {
        Ok(Outcome::Print(text)) => assert!(text.starts_with("User 0:\n")),
        other => panic!("unexpected {other:?}"),
    }

    assert!(matches!(
        execute(Command::Remove { id: 9 }, &mut data),
        Err(Error::UserNotFound(9))
    ));
    assert!(matches!(execute(Command::Remove { id: 0 }, &mut data), Ok(Outcome::Save)));
    assert_eq!(data.user(0), None);

    data.add_user(first_user());
    assert!(matches!(execute(Command::Reset, &mut data), Ok(Outcome::Save)));
    assert!(data.users().is_empty());
    assert_eq!(data.next_id(), 0);
}

#[test]
fn phone_numbers_are_written_in_decimal() {
    let mut data = Data::new();
    for (phone, text) in [(0u64, "0"), (9, "9"), (10, "10"), (u64::MAX, "18446744073709551615")] {
        let id = data.next_id();
        let command = Command::Add {
            first_name: String::new(),
            last_name: String::new(),
            email: String::new(),
            phone_number: phone,
        };
        assert!(execute(command, &mut data).is_ok());
        assert_eq!(data.user(id).unwrap().phone_number, text);
    }
}

#[test]
fn main_page_title() {
    assert_eq!(title(), "Main Page");
    let mut state = State { page: Page::Main };
    assert_eq!(App::title(&state), "Main Page");
    App::update(&mut state, Message::Redraw);
    assert_eq!(state.page, Page::Main);
}
