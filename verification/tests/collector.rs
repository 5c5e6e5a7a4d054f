use basecamp::collect::{
    answers_url, projects_url, questionnaire_url, questions_url, Action, CollectError, Collector,
    Event, Part, Stage,
};
use basecamp::json::{find_by_name, get_member, parse_json, JsonValue, Miss};
use basecamp::types::{Account, Answer, AuthEndpoint, Bucket, Company, Creator, Identity, Parent};

fn text(s: &str) -> JsonValue {
    JsonValue::Str(s.to_string())
}

fn object(members: Vec<(&str, JsonValue)>) -> JsonValue {
    JsonValue::Object(members.into_iter().map(|(k, v)| (k.to_string(), v)).collect())
}

fn account(href: &str) -> Account {
    Account {
        product: "bc3".to_string(),
        id: 1,
        name: "Home".to_string(),
        href: href.to_string(),
        app_href: "https://3.basecamp.com/1".to_string(),
    }
}

fn auth(accounts: Vec<Account>) -> AuthEndpoint {
    AuthEndpoint {
        expires_at: "2020-01-01T00:00:00Z".to_string(),
        identity: Identity {
            id: 9,
            first_name: "Ann".to_string(),
            last_name: "Runner".to_string(),
            email_address: "ann@example.com".to_string(),
        },
        accounts,
    }
}

fn answer(id: u64, content: &str) -> Answer {
    Answer {
        id,
        status: "active".to_string(),
        visible_to_clients: false,
        created_at: "2020-05-01T20:00:00Z".to_string(),
        updated_at: "2020-05-01T20:00:00Z".to_string(),
        title: "Answer".to_string(),
        inherits_status: true,
        kind: "Question::Answer".to_string(),
        url: "https://3.basecampapi.com/1/answers/1.json".to_string(),
        app_url: "https://3.basecamp.com/1/answers/1".to_string(),
        bookmark_url: "https://3.basecampapi.com/1/bookmark.json".to_string(),
        subscription_url: "https://3.basecampapi.com/1/subscription.json".to_string(),
        comments_count: 0,
        comments_url: "https://3.basecampapi.com/1/comments.json".to_string(),
        parent: Parent {
            id: 3,
            title: "Did you get to run today?".to_string(),
            kind: "Question".to_string(),
            url: "https://3.basecampapi.com/1/questions/3.json".to_string(),
            app_url: "https://3.basecamp.com/1/questions/3".to_string(),
        },
        bucket: Bucket { id: 2, name: "Family".to_string(), kind: "Project".to_string() },
        creator: Creator {
            id: 9,
            attachable_sgid: "sgid".to_string(),
            name: "Ann Runner".to_string(),
            email_address: "ann@example.com".to_string(),
            personable_type: "User".to_string(),
            title: None,
            bio: Some("runs".to_string()),
            created_at: "2019-01-01T00:00:00Z".to_string(),
            updated_at: "2019-01-01T00:00:00Z".to_string(),
            admin: true,
            owner: true,
            client: false,
            time_zone: "America/Chicago".to_string(),
            avatar_url: "https://example.com/a.png".to_string(),
            company: Company { id: 5, name: "Home".to_string() },
        },
        content: content.to_string(),
        group_on: "2020-05-01".to_string(),
    }
}

fn projects() -> JsonValue {
    JsonValue::Array(vec![
        object(vec![("name", text("Work")), ("dock", JsonValue::Array(vec![]))]),
        object(vec![
            ("id", JsonValue::Number("2".to_string())),
            ("name", text("Family")),
            (
                "dock",
                JsonValue::Array(vec![
                    object(vec![("name", text("message_board")), ("url", text("https://x/mb.json"))]),
                    object(vec![("name", text("questionnaire")), ("url", text("https://x/q.json"))]),
                ]),
            ),
        ]),
    ])
}

fn questions() -> JsonValue {
    JsonValue::Array(vec![
        object(vec![("title", text("What did you eat?")), ("answers_url", text("https://x/eat.json"))]),
        object(vec![
            ("title", text("Did you get to run today?")),
            ("answers_url", text("https://x/run.json")),
        ]),
    ])
}

const PROJECTS_TEXT: &str = r#"[
  {"id": 1, "name": "Work", "dock": []},
  {"id": 2, "name": "Family", "dock": [
    {"id": 10, "name": "message_board", "url": "https://x/mb.json"},
    {"id": 11, "name": "questionnaire", "url": "https://x/q.json"}
  ]}
]"#;

const QUESTIONNAIRE_TEXT: &str = r#"{"id": 11, "questions_url": "https://x/questions.json"}"#;

const QUESTIONS_TEXT: &str = r#"[
  {"title": "What did you eat?", "answers_url": "https://x/eat.json"},
  {"title": "Did you get to run today?", "answers_url": "https://x/run.json"}
]"#;

fn fetch(action: Action) -> String {
    match action {
        Action::Fetch(u) => u,
        Action::Finish => panic!("finished"),
        Action::Fail(e) => panic!("failed: {:?}", e),
    }
}

#[test]
fn walks_to_all_answers() {
    let (mut c, first) = Collector::start();
    assert_eq!(fetch(first), "https://launchpad.37signals.com/authorization.json");
    assert_eq!(c.stage(), Stage::Authorization);
    let u = fetch(c.step(Event::Authorization(auth(vec![
        account("https://3.basecampapi.com/1"),
        account("https://3.basecampapi.com/2"),
    ]))));
    assert_eq!(u, "https://3.basecampapi.com/1/projects.json");
    assert_eq!(fetch(c.step(Event::Projects(PROJECTS_TEXT.to_string()))), "https://x/q.json");
    assert_eq!(
        fetch(c.step(Event::Questionnaire(QUESTIONNAIRE_TEXT.to_string()))),
        "https://x/questions.json"
    );
    assert_eq!(fetch(c.step(Event::Questions(QUESTIONS_TEXT.to_string()))), "https://x/run.json");
    assert_eq!(c.stage(), Stage::Answers);
    let next = c.step(Event::AnswerPage(
        vec![answer(1, "yes"), answer(2, "no")],
        Some("<https://x/run.json?page=2>; rel=\"next\"".to_string()),
    ));
    assert_eq!(fetch(next), "https://x/run.json?page=2");
    let next = c.step(Event::AnswerPage(
        vec![answer(3, "yes")],
        Some("<https://x/run.json?page=3>; rel=\"next\"".to_string()),
    ));
    assert_eq!(fetch(next), "https://x/run.json?page=3");
    match c.step(Event::AnswerPage(vec![answer(4, "maybe")], None)) {
        Action::Finish => {},
        _ => panic!("expected to finish"),
    }
    assert_eq!(c.stage(), Stage::Finished);
    let ids: Vec<u64> = c.into_answers().iter().map(|a| a.id).collect();
    assert_eq!(ids, vec![1, 2, 3, 4]);
}

#[test]
fn empty_pages_are_gathered_too() {
    let (mut c, _) = Collector::start();
    fetch(c.step(Event::Authorization(auth(vec![account("a")]))));
    fetch(c.step(Event::Projects(PROJECTS_TEXT.to_string())));
    fetch(c.step(Event::Questionnaire(r#"{"questions_url": "q"}"#.to_string())));
    fetch(c.step(Event::Questions(QUESTIONS_TEXT.to_string())));
    match c.step(Event::AnswerPage(vec![], None)) {
        Action::Finish => {},
        _ => panic!("expected to finish"),
    }
    assert!(c.answers().is_empty());
}

#[test]
fn no_account_stops_the_walk() {
    let (mut c, _) = Collector::start();
    match c.step(Event::Authorization(auth(vec![]))) {
        Action::Fail(e) => assert_eq!(e, CollectError::NoAccount),
        _ => panic!("expected a failure"),
    }
    assert_eq!(c.stage(), Stage::Failed);
}

#[test]
fn project_list_failures() {
    assert_eq!(questionnaire_url(&projects()), Ok("https://x/q.json".to_string()));
    assert_eq!(questionnaire_url(&text("x")), Err(CollectError::NotAList(Part::Projects)));
    assert_eq!(
        questionnaire_url(&JsonValue::Array(vec![object(vec![("name", text("Work"))])])),
        Err(CollectError::NotFound(Part::Project))
    );
    assert_eq!(
        questionnaire_url(&JsonValue::Array(vec![
            object(vec![("title", text("Family"))]),
            object(vec![("name", text("Family"))]),
        ])),
        Err(CollectError::NotText(Part::Project))
    );
    assert_eq!(
        questionnaire_url(&JsonValue::Array(vec![object(vec![("name", text("Family"))])])),
        Err(CollectError::NotAList(Part::Dock))
    );
    assert_eq!(
        questionnaire_url(&JsonValue::Array(vec![object(vec![
            ("name", text("Family")),
            ("dock", JsonValue::Array(vec![object(vec![("name", text("todoset"))])])),
        ])])),
        Err(CollectError::NotFound(Part::Questionnaire))
    );
    assert_eq!(
        questionnaire_url(&JsonValue::Array(vec![object(vec![
            ("name", text("Family")),
            ("dock", JsonValue::Array(vec![object(vec![("name", JsonValue::Null)])])),
        ])])),
        Err(CollectError::NotText(Part::Questionnaire))
    );
    assert_eq!(
        questionnaire_url(&JsonValue::Array(vec![object(vec![
            ("name", text("Family")),
            (
                "dock",
                JsonValue::Array(vec![object(vec![
                    ("name", text("questionnaire")),
                    ("url", JsonValue::Number("1".to_string())),
                ])]),
            ),
        ])])),
        Err(CollectError::NotText(Part::QuestionnaireUrl))
    );
}

#[test]
fn items_after_the_match_are_not_looked_at() {
    let list = JsonValue::Array(vec![
        object(vec![
            ("name", text("Family")),
            ("dock", JsonValue::Array(vec![object(vec![
                ("name", text("questionnaire")),
                ("url", text("u")),
            ])])),
        ]),
        JsonValue::Bool(true),
    ]);
    assert_eq!(questionnaire_url(&list), Ok("u".to_string()));
}

#[test]
fn question_failures() {
    assert_eq!(questions_url(&object(vec![])), Err(CollectError::NotText(Part::QuestionsUrl)));
    assert_eq!(questions_url(&JsonValue::Null), Err(CollectError::NotText(Part::QuestionsUrl)));
    assert_eq!(answers_url(&object(vec![])), Err(CollectError::NotAList(Part::Questions)));
    assert_eq!(
        answers_url(&JsonValue::Array(vec![object(vec![("title", text("Other"))])])),
        Err(CollectError::NotFound(Part::Question))
    );
    assert_eq!(
        answers_url(&JsonValue::Array(vec![object(vec![("title", text("Did you get to run today?"))])])),
        Err(CollectError::NotText(Part::AnswersUrl))
    );
    assert_eq!(answers_url(&questions()), Ok("https://x/run.json".to_string()));
    assert_eq!(answers_url(&parse_json(QUESTIONS_TEXT).unwrap()), Ok("https://x/run.json".to_string()));
}

#[test]
fn projects_url_uses_first_account() {
    let a = auth(vec![account("https://3.basecampapi.com/7"), account("other")]);
    assert_eq!(projects_url(&a), Ok("https://3.basecampapi.com/7/projects.json".to_string()));
}

#[test]
fn response_out_of_turn_fails() {
    let (mut c, _) = Collector::start();
    match c.step(Event::Projects(PROJECTS_TEXT.to_string())) {
        Action::Fail(e) => assert_eq!(e, CollectError::UnexpectedResponse),
        _ => panic!("expected a failure"),
    }
    match c.step(Event::Authorization(auth(vec![account("a")]))) {
        Action::Fail(e) => assert_eq!(e, CollectError::UnexpectedResponse),
        _ => panic!("expected a failure"),
    }
}

#[test]
fn malformed_link_keeps_answers_and_fails() {
    let (mut c, _) = Collector::start();
    fetch(c.step(Event::Authorization(auth(vec![account("a")]))));
    fetch(c.step(Event::Projects(PROJECTS_TEXT.to_string())));
    fetch(c.step(Event::Questionnaire(r#"{"questions_url": "q"}"#.to_string())));
    fetch(c.step(Event::Questions(QUESTIONS_TEXT.to_string())));
    match c.step(Event::AnswerPage(vec![answer(8, "yes")], Some("https://x; rel=next".to_string()))) {
        Action::Fail(e) => assert_eq!(e, CollectError::MalformedLinkHeader),
        _ => panic!("expected a failure"),
    }
    assert_eq!(c.answers().len(), 1);
    assert_eq!(c.answers()[0].id, 8);
}

#[test]
fn member_lookup_takes_the_first_member() {
    let o = object(vec![("a", text("1")), ("b", text("2")), ("a", text("3"))]);
    match get_member(&o, "a") {
        Some(JsonValue::Str(s)) => assert_eq!(s, "1"),
        _ => panic!("expected a member"),
    }
    assert!(get_member(&o, "c").is_none());
    assert!(get_member(&text("a"), "a").is_none());
}

#[test]
fn find_by_name_looks_in_order() {
    let items = vec![
        object(vec![("name", text("x"))]),
        object(vec![("name", text("y"))]),
        object(vec![("name", text("y"))]),
    ];
    assert_eq!(find_by_name(&items, "name", "y"), Ok(1));
    assert_eq!(find_by_name(&items, "name", "z"), Err(Miss::NotFound));
    assert_eq!(find_by_name(&items, "title", "y"), Err(Miss::NotText));
    assert_eq!(find_by_name(&vec![], "name", "y"), Err(Miss::NotFound));
}

#[test]
fn response_that_is_not_json_fails() {
    let (mut c, _) = Collector::start();
    fetch(c.step(Event::Authorization(auth(vec![account("a")]))));
    match c.step(Event::Projects("<html>Not found</html>".to_string())) {
        Action::Fail(e) => assert_eq!(e, CollectError::NotJson(Stage::Projects)),
        _ => panic!("expected a failure"),
    }
    let (mut c, _) = Collector::start();
    fetch(c.step(Event::Authorization(auth(vec![account("a")]))));
    fetch(c.step(Event::Projects(PROJECTS_TEXT.to_string())));
    match c.step(Event::Questionnaire("{\"questions_url\": ".to_string())) {
        Action::Fail(e) => assert_eq!(e, CollectError::NotJson(Stage::Questionnaire)),
        _ => panic!("expected a failure"),
    }
}

#[test]
fn json_text_is_read_into_values() {
    match parse_json(r#"{"b": 1.5, "a": [true, null, "x"], "b": 2}"#) {
        Some(JsonValue::Object(members)) => {
            assert_eq!(members.len(), 2);
            assert_eq!(members[0].0, "a");
            match &members[0].1 {
                JsonValue::Array(items) => {
                    assert_eq!(items.len(), 3);
                    assert!(matches!(items[0], JsonValue::Bool(true)));
                    assert!(matches!(items[1], JsonValue::Null));
                    match &items[2] {
                        JsonValue::Str(s) => assert_eq!(s, "x"),
                        _ => panic!("expected a string"),
                    }
                }
                _ => panic!("expected an array"),
            }
            assert_eq!(members[1].0, "b");
            match &members[1].1 {
                JsonValue::Number(n) => assert_eq!(n, "2"),
                _ => panic!("expected a number"),
            }
        }
        _ => panic!("expected an object"),
    }
    assert!(parse_json("").is_none());
    assert!(parse_json("[1,").is_none());
    assert!(matches!(parse_json(" 7 "), Some(JsonValue::Number(_))));
}
