use vstd::prelude::*;
use crate::json::{
    JsonValue, json_of_text, parse_json, lemma_find_named_first, lemma_find_named_sound, passed_over, Miss, find_by_name, find_named, get_items, get_member_items, get_member_text,
    items_of, member_items, member_text,
};
use crate::link::{extract_link_header, has_link_target, link_target};
use crate::types::{Answer, AuthEndpoint};

verus! {

/// Where the walk to the answers starts.
pub const AUTHORIZATION_URL: &'static str = "https://launchpad.37signals.com/authorization.json";

/// Appended to an account's address to list its projects.
pub const PROJECTS_PATH: &'static str = "/projects.json";

/// The project that holds the check-in question.
pub const FAMILY_PROJECT: &'static str = "Family";

/// The dock tool of that project that holds the check-ins.
pub const QUESTIONNAIRE_TOOL: &'static str = "questionnaire";

/// The check-in question whose answers are collected.
pub const RUN_QUESTION: &'static str = "Did you get to run today?";

pub const NAME_FIELD: &'static str = "name";
pub const DOCK_FIELD: &'static str = "dock";
pub const URL_FIELD: &'static str = "url";
pub const QUESTIONS_URL_FIELD: &'static str = "questions_url";
pub const TITLE_FIELD: &'static str = "title";
pub const ANSWERS_URL_FIELD: &'static str = "answers_url";

/// A part of an API response that the walk reads.
#[derive(PartialEq, Eq, Structural, Clone, Copy, Debug)]
pub enum Part {
    /// The list of projects.
    Projects,
    /// The project named `FAMILY_PROJECT` in that list.
    Project,
    /// The dock of that project.
    Dock,
    /// The dock tool named `QUESTIONNAIRE_TOOL`.
    Questionnaire,
    /// The address of the questionnaire.
    QuestionnaireUrl,
    /// The address of the questionnaire's questions.
    QuestionsUrl,
    /// The list of questions.
    Questions,
    /// The question titled `RUN_QUESTION`.
    Question,
    /// The address of that question's answers.
    AnswersUrl,
}

/// Why the walk to the answers cannot go on.
#[derive(PartialEq, Eq, Structural, Clone, Copy, Debug)]
pub enum CollectError {
    /// The user has no account.
    NoAccount,
    /// The part is not a list.
    NotAList(Part),
    /// The part is not text; for a named item, an item looked at before
    /// the match has no text under its name.
    NotText(Part),
    /// No item of the list carries the wanted name.
    NotFound(Part),
    /// The response read in this stage is not JSON.
    NotJson(Stage),
    /// A `Link` header that names no next page.
    MalformedLinkHeader,
    /// A response that the current stage does not wait for.
    UnexpectedResponse,
}

/// The stage of the walk: which response it waits for next.
#[derive(PartialEq, Eq, Structural, Clone, Copy, Debug)]
pub enum Stage {
    Authorization,
    Projects,
    Questionnaire,
    Questions,
    Answers,
    Finished,
    Failed,
}

/// A response of the API, read into values.
pub enum Event {
    /// The authorization endpoint.
    Authorization(AuthEndpoint),
    /// The text of the project list.
    Projects(String),
    /// The text of the questionnaire.
    Questionnaire(String),
    /// The text of the question list.
    Questions(String),
    /// One page of answers, with the text of the `Link` header if the
    /// response had one.
    AnswerPage(Vec<Answer>, Option<String>),
}

/// What to do next.
pub enum Action {
    /// Send a GET request to the address.
    Fetch(String),
    /// All answers are collected.
    Finish,
    /// The walk cannot go on.
    Fail(CollectError),
}

impl View for Action {
    /// `Ok(Some(address))` to fetch, `Ok(None)` when finished.
    type V = Result<Option<Seq<char>>, CollectError>;

    open spec fn view(&self) -> Self::V {
        match self {
            Action::Fetch(u) => Ok(Some(u@)),
            Action::Finish => Ok(None),
            Action::Fail(e) => Err(*e),
        }
    }
}

pub open spec fn missed(m: Miss, part: Part) -> CollectError {
    match m {
        Miss::NotText => CollectError::NotText(part),
        Miss::NotFound => CollectError::NotFound(part),
    }
}

/// The project list of the first account.
pub open spec fn projects_url_of(auth: AuthEndpoint) -> Result<Seq<char>, CollectError> {
    if auth.accounts@.len() == 0 {
        Err(CollectError::NoAccount)
    } else {
        Ok(auth.accounts@[0].href@ + PROJECTS_PATH@)
    }
}

/// The address of the questionnaire in the dock of the family project.
pub open spec fn questionnaire_url_of(projects: JsonValue) -> Result<Seq<char>, CollectError> {
    match items_of(projects) {
        None => Err(CollectError::NotAList(Part::Projects)),
        Some(items) => match find_named(items, NAME_FIELD@, FAMILY_PROJECT@) {
            Err(m) => Err(missed(m, Part::Project)),
            Ok(i) => match member_items(items[i], DOCK_FIELD@) {
                None => Err(CollectError::NotAList(Part::Dock)),
                Some(dock) => match find_named(dock, NAME_FIELD@, QUESTIONNAIRE_TOOL@) {
                    Err(m) => Err(missed(m, Part::Questionnaire)),
                    Ok(j) => match member_text(dock[j], URL_FIELD@) {
                        Some(u) => Ok(u),
                        None => Err(CollectError::NotText(Part::QuestionnaireUrl)),
                    },
                },
            },
        },
    }
}

/// The address of the questionnaire's questions.
pub open spec fn questions_url_of(questionnaire: JsonValue) -> Result<Seq<char>, CollectError> {
    match member_text(questionnaire, QUESTIONS_URL_FIELD@) {
        Some(u) => Ok(u),
        None => Err(CollectError::NotText(Part::QuestionsUrl)),
    }
}

/// The address of the answers to the run question.
pub open spec fn answers_url_of(questions: JsonValue) -> Result<Seq<char>, CollectError> {
    match items_of(questions) {
        None => Err(CollectError::NotAList(Part::Questions)),
        Some(items) => match find_named(items, TITLE_FIELD@, RUN_QUESTION@) {
            Err(m) => Err(missed(m, Part::Question)),
            Ok(i) => match member_text(items[i], ANSWERS_URL_FIELD@) {
                Some(u) => Ok(u),
                None => Err(CollectError::NotText(Part::AnswersUrl)),
            },
        },
    }
}

/// The questionnaire's address, read from the text of the project list.
pub open spec fn questionnaire_url_in(text: Seq<char>) -> Result<Seq<char>, CollectError> {
    match json_of_text(text) {
        Some(projects) => questionnaire_url_of(projects),
        None => Err(CollectError::NotJson(Stage::Projects)),
    }
}

/// The questions' address, read from the text of the questionnaire.
pub open spec fn questions_url_in(text: Seq<char>) -> Result<Seq<char>, CollectError> {
    match json_of_text(text) {
        Some(questionnaire) => questions_url_of(questionnaire),
        None => Err(CollectError::NotJson(Stage::Questionnaire)),
    }
}

/// The answers' address, read from the text of the question list.
pub open spec fn answers_url_in(text: Seq<char>) -> Result<Seq<char>, CollectError> {
    match json_of_text(text) {
        Some(questions) => answers_url_of(questions),
        None => Err(CollectError::NotJson(Stage::Questions)),
    }
}

/// The projects address is the first account's `href` followed by
/// `/projects.json`, whatever other accounts there are; with no account
/// there is none.
pub proof fn lemma_projects_address(auth: AuthEndpoint)
    ensures
        auth.accounts@.len() > 0 ==> projects_url_of(auth) == Ok::<Seq<char>, CollectError>(
            auth.accounts@[0].href@ + "/projects.json"@,
        ),
        auth.accounts@.len() == 0 ==> projects_url_of(auth) == Err::<Seq<char>, CollectError>(
            CollectError::NoAccount,
        ),
{
}

/// Two sign-ins whose first accounts have the same `href` give the same
/// projects address: no other account and no other field counts.
pub proof fn lemma_projects_address_first_account_only(a: AuthEndpoint, b: AuthEndpoint)
    requires
        a.accounts@.len() > 0,
        b.accounts@.len() > 0,
        a.accounts@[0].href@ == b.accounts@[0].href@,
    ensures
        projects_url_of(a) == projects_url_of(b),
{
}

/// The questions address is the questionnaire's `questions_url` member,
/// whatever other members (such as its own `url`) it holds; it is missing
/// exactly when that member is not text.
pub proof fn lemma_questions_address(questionnaire: JsonValue)
    ensures
        member_text(questionnaire, "questions_url"@) matches Some(u) ==> questions_url_of(
            questionnaire,
        ) == Ok::<Seq<char>, CollectError>(u),
        member_text(questionnaire, "questions_url"@) is None ==> questions_url_of(questionnaire)
            == Err::<Seq<char>, CollectError>(CollectError::NotText(Part::QuestionsUrl)),
{
}

/// In a question list whose item `i` is the first one titled
/// `Did you get to run today?` (all before it having other titles), the
/// answers address is the `answers_url` of that same item `i`, whatever
/// follows it.
pub proof fn lemma_answers_address_of_run_question(items: Vec<JsonValue>, i: int)
    requires
        0 <= i < items@.len(),
        member_text(items@[i], "title"@) == Some("Did you get to run today?"@),
        passed_over(items@, "title"@, "Did you get to run today?"@, i),
    ensures
        member_text(items@[i], "answers_url"@) matches Some(u) ==> answers_url_of(
            JsonValue::Array(items),
        ) == Ok::<Seq<char>, CollectError>(u),
        member_text(items@[i], "answers_url"@) is None ==> answers_url_of(JsonValue::Array(items))
            == Err::<Seq<char>, CollectError>(CollectError::NotText(Part::AnswersUrl)),
{
    lemma_find_named_first(items@, "title"@, "Did you get to run today?"@, i);
}

/// An answers address that is found is the `answers_url` of a question in
/// the list titled `Did you get to run today?`, the first so titled.
pub proof fn lemma_answers_address_sound(questions: JsonValue)
    ensures
        answers_url_of(questions) matches Ok(u) ==> exists|i: int|
            #![trigger member_text(items_of(questions)->0[i], "answers_url"@)]
            {
                &&& items_of(questions) is Some
                &&& 0 <= i < items_of(questions)->0.len()
                &&& member_text(items_of(questions)->0[i], "title"@) == Some(
                    "Did you get to run today?"@,
                )
                &&& passed_over(items_of(questions)->0, "title"@, "Did you get to run today?"@, i)
                &&& member_text(items_of(questions)->0[i], "answers_url"@) == Some(u)
            },
{
    if let JsonValue::Array(items) = questions {
        lemma_find_named_sound(items@, "title"@, "Did you get to run today?"@);
        if let Ok(i) = find_named(items@, "title"@, "Did you get to run today?"@) {
            assert(member_text(items@[i], "answers_url"@) == member_text(items@[i], "answers_url"@));
        }
    }
}

/// In a project list whose item `i` is the first project named `Family`,
/// with a dock whose item `j` is the first tool named `questionnaire`, the
/// questionnaire address is the `url` of that same tool `j`, whatever
/// other projects and tools follow.
pub proof fn lemma_questionnaire_address_of_tool(items: Vec<JsonValue>, i: int, j: int)
    requires
        0 <= i < items@.len(),
        member_text(items@[i], "name"@) == Some("Family"@),
        passed_over(items@, "name"@, "Family"@, i),
        member_items(items@[i], "dock"@) is Some,
        0 <= j < member_items(items@[i], "dock"@)->0.len(),
        member_text(member_items(items@[i], "dock"@)->0[j], "name"@) == Some("questionnaire"@),
        passed_over(member_items(items@[i], "dock"@)->0, "name"@, "questionnaire"@, j),
    ensures
        member_text(member_items(items@[i], "dock"@)->0[j], "url"@) matches Some(u)
            ==> questionnaire_url_of(JsonValue::Array(items)) == Ok::<Seq<char>, CollectError>(u),
        member_text(member_items(items@[i], "dock"@)->0[j], "url"@) is None
            ==> questionnaire_url_of(JsonValue::Array(items)) == Err::<Seq<char>, CollectError>(
            CollectError::NotText(Part::QuestionnaireUrl),
        ),
{
    lemma_find_named_first(items@, "name"@, "Family"@, i);
    lemma_find_named_first(member_items(items@[i], "dock"@)->0, "name"@, "questionnaire"@, j);
}

/// A questionnaire address that is found is the `url` of a dock tool named
/// `questionnaire` (the first so named) of a project named `Family` (the
/// first so named).
pub proof fn lemma_questionnaire_address_sound(projects: JsonValue)
    ensures
        questionnaire_url_of(projects) matches Ok(u) ==> exists|i: int, j: int|
            #![trigger member_text(member_items(items_of(projects)->0[i], "dock"@)->0[j], "url"@)]
            {
                &&& items_of(projects) is Some
                &&& 0 <= i < items_of(projects)->0.len()
                &&& member_text(items_of(projects)->0[i], "name"@) == Some("Family"@)
                &&& passed_over(items_of(projects)->0, "name"@, "Family"@, i)
                &&& member_items(items_of(projects)->0[i], "dock"@) is Some
                &&& 0 <= j < member_items(items_of(projects)->0[i], "dock"@)->0.len()
                &&& member_text(member_items(items_of(projects)->0[i], "dock"@)->0[j], "name"@)
                    == Some("questionnaire"@)
                &&& passed_over(
                    member_items(items_of(projects)->0[i], "dock"@)->0,
                    "name"@,
                    "questionnaire"@,
                    j,
                )
                &&& member_text(member_items(items_of(projects)->0[i], "dock"@)->0[j], "url"@)
                    == Some(u)
            },
{
    if let JsonValue::Array(items) = projects {
        lemma_find_named_sound(items@, "name"@, "Family"@);
        if let Ok(i) = find_named(items@, "name"@, "Family"@) {
            if let Some(dock) = member_items(items@[i], "dock"@) {
                lemma_find_named_sound(dock, "name"@, "questionnaire"@);
                if let Ok(j) = find_named(dock, "name"@, "questionnaire"@) {
                    assert(member_text(dock[j], "url"@) == member_text(dock[j], "url"@));
                }
            }
        }
    }
}

/// Moves to `next` and fetches the address, or fails.
pub open spec fn advance(
    next: Stage,
    answers: Seq<Answer>,
    url: Result<Seq<char>, CollectError>,
) -> (Stage, Seq<Answer>, Result<Option<Seq<char>>, CollectError>) {
    match url {
        Ok(u) => (next, answers, Ok(Some(u))),
        Err(e) => (Stage::Failed, answers, Err(e)),
    }
}

/// One step of the walk: the stage, the answers gathered so far and a
/// response give the next stage, the answers and what to do next.
/// A page of answers is appended to those gathered; a further page is
/// fetched while the page has a `Link` header, and the walk finishes on a
/// page without one.
pub open spec fn next_step(stage: Stage, answers: Seq<Answer>, event: Event) -> (
    Stage,
    Seq<Answer>,
    Result<Option<Seq<char>>, CollectError>,
) {
    match event {
        Event::Authorization(auth) => if stage == Stage::Authorization {
            advance(Stage::Projects, answers, projects_url_of(auth))
        } else {
            (Stage::Failed, answers, Err(CollectError::UnexpectedResponse))
        },
        Event::Projects(projects) => if stage == Stage::Projects {
            advance(Stage::Questionnaire, answers, questionnaire_url_in(projects@))
        } else {
            (Stage::Failed, answers, Err(CollectError::UnexpectedResponse))
        },
        Event::Questionnaire(questionnaire) => if stage == Stage::Questionnaire {
            advance(Stage::Questions, answers, questions_url_in(questionnaire@))
        } else {
            (Stage::Failed, answers, Err(CollectError::UnexpectedResponse))
        },
        Event::Questions(questions) => if stage == Stage::Questions {
            advance(Stage::Answers, answers, answers_url_in(questions@))
        } else {
            (Stage::Failed, answers, Err(CollectError::UnexpectedResponse))
        },
        Event::AnswerPage(page, link) => if stage == Stage::Answers {
            let gathered = answers + page@;
            match link {
                None => (Stage::Finished, gathered, Ok(None)),
                Some(h) => match link_target(h@) {
                    Some(u) => (Stage::Answers, gathered, Ok(Some(u))),
                    None => (Stage::Failed, gathered, Err(CollectError::MalformedLinkHeader)),
                },
            }
        } else {
            (Stage::Failed, answers, Err(CollectError::UnexpectedResponse))
        },
    }
}

/// The answers a response brings: a page's answers, none for any other.
pub open spec fn page_answers(event: Event) -> Seq<Answer> {
    match event {
        Event::AnswerPage(page, _) => page@,
        _ => Seq::empty(),
    }
}

/// The answers of all the pages, in order.
pub open spec fn all_page_answers(pages: Seq<Event>) -> Seq<Answer>
    decreases pages.len(),
{
    if pages.len() == 0 {
        Seq::empty()
    } else {
        page_answers(pages[0]) + all_page_answers(pages.drop_first())
    }
}

/// Feeds the responses in order: the stage reached, the answers gathered
/// and the actions asked for on the way.
pub open spec fn feed(stage: Stage, answers: Seq<Answer>, events: Seq<Event>) -> (
    Stage,
    Seq<Answer>,
    Seq<Result<Option<Seq<char>>, CollectError>>,
)
    decreases events.len(),
{
    if events.len() == 0 {
        (stage, answers, Seq::empty())
    } else {
        let (s, a, act) = next_step(stage, answers, events[0]);
        let (s2, a2, acts) = feed(s, a, events.drop_first());
        (s2, a2, seq![act] + acts)
    }
}

/// A run of answer pages: every page but the last has a `Link` header
/// that names the next page, and the last has none.
pub open spec fn is_page_run(pages: Seq<Event>) -> bool {
    &&& pages.len() > 0
    &&& forall|i: int|
        0 <= i < pages.len() ==> match #[trigger] pages[i] {
            Event::AnswerPage(_, link) => if i < pages.len() - 1 {
                link matches Some(h) && link_target(h@) is Some
            } else {
                link is None
            },
            _ => false,
        }
}

/// The address a page's `Link` header names.
pub open spec fn next_page_address(event: Event) -> Seq<char> {
    match event {
        Event::AnswerPage(_, Some(h)) => link_target(h@)->0,
        _ => Seq::empty(),
    }
}

/// Paginated answers are gathered completely and in order: fed a run of
/// answer pages, the walk asks for the page each `Link` header names,
/// finishes after the page without one, and then holds the answers it had
/// followed by the answers of every page in order.
pub proof fn lemma_pages_gathered(answers: Seq<Answer>, pages: Seq<Event>)
    requires
        is_page_run(pages),
    ensures
        feed(Stage::Answers, answers, pages).0 == Stage::Finished,
        feed(Stage::Answers, answers, pages).1 == answers + all_page_answers(pages),
        feed(Stage::Answers, answers, pages).2.len() == pages.len(),
        forall|i: int|
            0 <= i < pages.len() - 1 ==> #[trigger] feed(Stage::Answers, answers, pages).2[i]
                == Ok::<Option<Seq<char>>, CollectError>(Some(next_page_address(pages[i]))),
        feed(Stage::Answers, answers, pages).2[pages.len() - 1] == Ok::<
            Option<Seq<char>>,
            CollectError,
        >(None),
    decreases pages.len(),
{
    let first = pages[0];
    assert(is_page_run(pages) ==> match pages[0] {
        Event::AnswerPage(_, _) => true,
        _ => false,
    });
    let rest = pages.drop_first();
    let (s, a, act) = next_step(Stage::Answers, answers, first);
    assert(a == answers + page_answers(first));
    assert(feed(Stage::Answers, answers, pages) == (
        feed(s, a, rest).0,
        feed(s, a, rest).1,
        seq![act] + feed(s, a, rest).2,
    ));
    if pages.len() == 1 {
        assert(rest.len() == 0);
        assert(feed(s, a, rest) == (s, a, Seq::<Result<Option<Seq<char>>, CollectError>>::empty()));
        assert(all_page_answers(rest) == Seq::<Answer>::empty());
        assert(answers + page_answers(first) =~= answers + all_page_answers(pages));
    } else {
        assert(s == Stage::Answers);
        assert(act == Ok::<Option<Seq<char>>, CollectError>(Some(next_page_address(first))));
        assert forall|i: int| 0 <= i < rest.len() implies match #[trigger] rest[i] {
            Event::AnswerPage(_, link) => if i < rest.len() - 1 {
                link matches Some(h) && link_target(h@) is Some
            } else {
                link is None
            },
            _ => false,
        } by {
            assert(rest[i] == pages[i + 1]);
        }
        lemma_pages_gathered(a, rest);
        assert(a + all_page_answers(rest) =~= answers + all_page_answers(pages));
        let acts = feed(Stage::Answers, answers, pages).2;
        let racts = feed(s, a, rest).2;
        assert(acts == seq![act] + racts);
        assert forall|i: int| 0 <= i < pages.len() - 1 implies #[trigger] acts[i] == Ok::<
            Option<Seq<char>>,
            CollectError,
        >(Some(next_page_address(pages[i]))) by {
            if i > 0 {
                assert(acts[i] == racts[i - 1]);
                assert(rest[i - 1] == pages[i]);
            }
        }
        assert(acts[pages.len() - 1] == racts[rest.len() - 1]);
    }
}

/// Answers once gathered stay: every step keeps the answers it had, in
/// order, at the front of those it holds after.
pub proof fn lemma_answers_kept(stage: Stage, answers: Seq<Answer>, event: Event)
    ensures
        next_step(stage, answers, event).1.len() >= answers.len(),
        next_step(stage, answers, event).1.subrange(0, answers.len() as int) == answers,
{
    let after = next_step(stage, answers, event).1;
    assert(after.subrange(0, answers.len() as int) =~= answers);
}

/// Feeding a first response and then the rest is one step and then the
/// feeding of the rest.
pub proof fn lemma_feed_first(stage: Stage, answers: Seq<Answer>, first: Event, rest: Seq<Event>)
    ensures
        feed(stage, answers, seq![first] + rest) == ({
            let (s, a, act) = next_step(stage, answers, first);
            let (s2, a2, acts) = feed(s, a, rest);
            (s2, a2, seq![act] + acts)
        }),
{
    let events = seq![first] + rest;
    assert(events[0] == first);
    assert(events.drop_first() =~= rest);
}

/// The whole walk gathers every answer: when the account, and, read from
/// the JSON texts of the responses, the family project's questionnaire, its
/// questions address and the run question's answers address can all be
/// found, a walk from the start that is fed
/// the four responses and then a run of answer pages fetches those four
/// addresses in turn, finishes, and holds exactly the answers of the
/// pages, in order.
pub proof fn lemma_walk_gathers_all(
    auth: AuthEndpoint,
    projects: String,
    questionnaire: String,
    questions: String,
    pages: Seq<Event>,
)
    requires
        projects_url_of(auth) is Ok,
        questionnaire_url_in(projects@) is Ok,
        questions_url_in(questionnaire@) is Ok,
        answers_url_in(questions@) is Ok,
        is_page_run(pages),
    ensures
        ({
            let events = seq![
                Event::Authorization(auth),
                Event::Projects(projects),
                Event::Questionnaire(questionnaire),
                Event::Questions(questions),
            ] + pages;
            let (stage, answers, actions) = feed(Stage::Authorization, Seq::empty(), events);
            &&& stage == Stage::Finished
            &&& answers == all_page_answers(pages)
            &&& actions.len() == 4 + pages.len()
            &&& actions[0] == Ok::<Option<Seq<char>>, CollectError>(Some(projects_url_of(auth)->Ok_0))
            &&& actions[1] == Ok::<Option<Seq<char>>, CollectError>(
                Some(questionnaire_url_in(projects@)->Ok_0),
            )
            &&& actions[2] == Ok::<Option<Seq<char>>, CollectError>(
                Some(questions_url_in(questionnaire@)->Ok_0),
            )
            &&& actions[3] == Ok::<Option<Seq<char>>, CollectError>(
                Some(answers_url_in(questions@)->Ok_0),
            )
            &&& actions.subrange(4, actions.len() as int) == feed(
                Stage::Answers,
                Seq::empty(),
                pages,
            ).2
        }),
{
    let none = Seq::<Answer>::empty();
    let e3 = seq![Event::Questions(questions)] + pages;
    let e2 = seq![Event::Questionnaire(questionnaire)] + e3;
    let e1 = seq![Event::Projects(projects)] + e2;
    let e0 = seq![Event::Authorization(auth)] + e1;
    assert(e0 =~= seq![
        Event::Authorization(auth),
        Event::Projects(projects),
        Event::Questionnaire(questionnaire),
        Event::Questions(questions),
    ] + pages);
    lemma_feed_first(Stage::Authorization, none, Event::Authorization(auth), e1);
    lemma_feed_first(Stage::Projects, none, Event::Projects(projects), e2);
    lemma_feed_first(Stage::Questionnaire, none, Event::Questionnaire(questionnaire), e3);
    lemma_feed_first(Stage::Questions, none, Event::Questions(questions), pages);
    lemma_pages_gathered(none, pages);
    assert(none + all_page_answers(pages) =~= all_page_answers(pages));
    let acts = feed(Stage::Authorization, none, e0).2;
    let tail = feed(Stage::Answers, none, pages).2;
    assert(acts.subrange(4, acts.len() as int) =~= tail);
}

fn owned_text(t: &str) -> (r: String)
    ensures
        r@ == t@,
{
    t.to_owned()
}

fn lookup_error(m: Miss, part: Part) -> (e: CollectError)
    ensures
        e == missed(m, part),
{
    match m {
        Miss::NotText => CollectError::NotText(part),
        Miss::NotFound => CollectError::NotFound(part),
    }
}

/// The address of the first account's project list: its `href` followed
/// by `/projects.json`.
pub fn projects_url(auth: &AuthEndpoint) -> (r: Result<String, CollectError>)
    ensures
        r matches Ok(u) ==> projects_url_of(*auth) == Ok::<Seq<char>, CollectError>(u@),
        r matches Err(e) ==> projects_url_of(*auth) == Err::<Seq<char>, CollectError>(e),
{
    if auth.accounts.len() == 0 {
        return Err(CollectError::NoAccount);
    }
    let mut url = auth.accounts[0].href.clone();
    url.append(PROJECTS_PATH);
    Ok(url)
}

/// The address of the questionnaire: in the project list, the first
/// project named `Family`; in its dock, the first tool named
/// `questionnaire`; that tool's `url`.
pub fn questionnaire_url(projects: &JsonValue) -> (r: Result<String, CollectError>)
    ensures
        r matches Ok(u) ==> questionnaire_url_of(*projects) == Ok::<Seq<char>, CollectError>(u@),
        r matches Err(e) ==> questionnaire_url_of(*projects) == Err::<Seq<char>, CollectError>(e),
{
    let items = match get_items(projects) {
        Some(items) => items,
        None => return Err(CollectError::NotAList(Part::Projects)),
    };
    let i = match find_by_name(items, NAME_FIELD, FAMILY_PROJECT) {
        Ok(i) => i,
        Err(m) => return Err(lookup_error(m, Part::Project)),
    };
    let dock = match get_member_items(&items[i], DOCK_FIELD) {
        Some(dock) => dock,
        None => return Err(CollectError::NotAList(Part::Dock)),
    };
    let j = match find_by_name(dock, NAME_FIELD, QUESTIONNAIRE_TOOL) {
        Ok(j) => j,
        Err(m) => return Err(lookup_error(m, Part::Questionnaire)),
    };
    match get_member_text(&dock[j], URL_FIELD) {
        Some(u) => Ok(owned_text(u)),
        None => Err(CollectError::NotText(Part::QuestionnaireUrl)),
    }
}

/// The questionnaire's `questions_url`.
pub fn questions_url(questionnaire: &JsonValue) -> (r: Result<String, CollectError>)
    ensures
        r matches Ok(u) ==> questions_url_of(*questionnaire) == Ok::<Seq<char>, CollectError>(u@),
        r matches Err(e) ==> questions_url_of(*questionnaire) == Err::<Seq<char>, CollectError>(e),
{
    match get_member_text(questionnaire, QUESTIONS_URL_FIELD) {
        Some(u) => Ok(owned_text(u)),
        None => Err(CollectError::NotText(Part::QuestionsUrl)),
    }
}

/// The `answers_url` of the first question titled
/// `Did you get to run today?`.
pub fn answers_url(questions: &JsonValue) -> (r: Result<String, CollectError>)
    ensures
        r matches Ok(u) ==> answers_url_of(*questions) == Ok::<Seq<char>, CollectError>(u@),
        r matches Err(e) ==> answers_url_of(*questions) == Err::<Seq<char>, CollectError>(e),
{
    let items = match get_items(questions) {
        Some(items) => items,
        None => return Err(CollectError::NotAList(Part::Questions)),
    };
    let i = match find_by_name(items, TITLE_FIELD, RUN_QUESTION) {
        Ok(i) => i,
        Err(m) => return Err(lookup_error(m, Part::Question)),
    };
    match get_member_text(&items[i], ANSWERS_URL_FIELD) {
        Some(u) => Ok(owned_text(u)),
        None => Err(CollectError::NotText(Part::AnswersUrl)),
    }
}

/// The walk from the authorization endpoint to the last page of answers.
pub struct Collector {
    stage: Stage,
    answers: Vec<Answer>,
}

impl View for Collector {
    type V = (Stage, Seq<Answer>);

    closed spec fn view(&self) -> Self::V {
        (self.stage, self.answers@)
    }
}

impl Collector {
    /// A walk that has gathered nothing and first fetches the
    /// authorization endpoint.
    pub fn start() -> (r: (Collector, Action))
        ensures
            r.0@ == (Stage::Authorization, Seq::<Answer>::empty()),
            r.1@ == Ok::<Option<Seq<char>>, CollectError>(Some(AUTHORIZATION_URL@)),
    {
        let c = Collector { stage: Stage::Authorization, answers: Vec::new() };
        (c, Action::Fetch(owned_text(AUTHORIZATION_URL)))
    }

    /// The response the walk waits for next.
    pub fn stage(&self) -> (r: Stage)
        ensures
            r == self@.0,
    {
        self.stage
    }

    /// The answers gathered so far, in the order they were received.
    pub fn answers(&self) -> (r: &Vec<Answer>)
        ensures
            r@ == self@.1,
    {
        &self.answers
    }

    /// Ends the walk and hands over the answers gathered.
    pub fn into_answers(self) -> (r: Vec<Answer>)
        ensures
            r@ == self@.1,
    {
        self.answers
    }

    fn go_on(&mut self, next: Stage, url: Result<String, CollectError>) -> (action: Action)
        ensures
            (final(self)@.0, final(self)@.1, action@) == advance(
                next,
                old(self)@.1,
                match url {
                    Ok(u) => Ok(u@),
                    Err(e) => Err(e),
                },
            ),
    {
        match url {
            Ok(u) => {
                self.stage = next;
                Action::Fetch(u)
            },
            Err(e) => {
                self.stage = Stage::Failed;
                Action::Fail(e)
            },
        }
    }

    /// Takes in one response and says what to do next (see `next_step`).
    pub fn step(&mut self, event: Event) -> (action: Action)
        ensures
            (final(self)@.0, final(self)@.1, action@) == next_step(old(self)@.0, old(self)@.1, event),
    {
        match event {
            Event::Authorization(auth) => {
                if self.stage == Stage::Authorization {
                    let url = projects_url(&auth);
                    self.go_on(Stage::Projects, url)
                } else {
                    self.stage = Stage::Failed;
                    Action::Fail(CollectError::UnexpectedResponse)
                }
            },
            Event::Projects(projects) => {
                if self.stage == Stage::Projects {
                    let url = match parse_json(projects.as_str()) {
                        Some(value) => questionnaire_url(&value),
                        None => Err(CollectError::NotJson(Stage::Projects)),
                    };
                    self.go_on(Stage::Questionnaire, url)
                } else {
                    self.stage = Stage::Failed;
                    Action::Fail(CollectError::UnexpectedResponse)
                }
            },
            Event::Questionnaire(questionnaire) => {
                if self.stage == Stage::Questionnaire {
                    let url = match parse_json(questionnaire.as_str()) {
                        Some(value) => questions_url(&value),
                        None => Err(CollectError::NotJson(Stage::Questionnaire)),
                    };
                    self.go_on(Stage::Questions, url)
                } else {
                    self.stage = Stage::Failed;
                    Action::Fail(CollectError::UnexpectedResponse)
                }
            },
            Event::Questions(questions) => {
                if self.stage == Stage::Questions {
                    let url = match parse_json(questions.as_str()) {
                        Some(value) => answers_url(&value),
                        None => Err(CollectError::NotJson(Stage::Questions)),
                    };
                    self.go_on(Stage::Answers, url)
                } else {
                    self.stage = Stage::Failed;
                    Action::Fail(CollectError::UnexpectedResponse)
                }
            },
            Event::AnswerPage(page, link) => {
                if self.stage == Stage::Answers {
                    let mut page = page;
                    self.answers.append(&mut page);
                    match link {
                        None => {
                            self.stage = Stage::Finished;
                            Action::Finish
                        },
                        Some(h) => if has_link_target(h.as_str()) {
                            Action::Fetch(owned_text(extract_link_header(h.as_str())))
                        } else {
                            self.stage = Stage::Failed;
                            Action::Fail(CollectError::MalformedLinkHeader)
                        },
                    }
                } else {
                    self.stage = Stage::Failed;
                    Action::Fail(CollectError::UnexpectedResponse)
                }
            },
        }
    }
}

} // verus!
