//! The remote protocol: what is sent to the service and what an answer means.
//!
//! A call is a [`Request`] for the caller to post and a [`Reply`] for the
//! caller to bring back. Nothing is retried: every answer is either the
//! payload asked for or one [`Error`].

use vstd::prelude::*;
use vstd::string::*;
use crate::error::{Error, ErrorView};

verus! {

/// The envelope of every answer: the payload, the errors, or both.
#[derive(Debug, PartialEq, Eq)]
pub struct GraphQLResponse<T> {
    pub data: Option<T>,
    pub errors: Option<Vec<GraphQLError>>,
}

/// One error reported by the service.
#[derive(Debug, PartialEq, Eq)]
pub struct GraphQLError {
    pub message: String,
}

/// The payload of a viewer lookup.
#[derive(Debug, PartialEq, Eq)]
pub struct ViewerData {
    pub viewer: Viewer,
}

/// The account a key belongs to.
#[derive(Debug, PartialEq, Eq)]
pub struct Viewer {
    pub id: String,
    pub name: String,
    pub email: String,
}

/// The payload of a team listing.
#[derive(Debug, PartialEq, Eq)]
pub struct TeamsData {
    pub teams: TeamsNodes,
}

/// The teams of a listing.
#[derive(Debug, PartialEq, Eq)]
pub struct TeamsNodes {
    pub nodes: Vec<Team>,
}

/// A team of the workspace.
#[derive(Debug, PartialEq, Eq)]
pub struct Team {
    pub id: String,
    pub name: String,
    pub key: String,
}

/// The payload of an issue creation.
#[derive(Debug, PartialEq, Eq)]
pub struct IssueCreateData {
    pub issue_create: IssueCreateResult,
}

/// Whether the service created the issue, and the issue if it did.
#[derive(Debug, PartialEq, Eq)]
pub struct IssueCreateResult {
    pub success: bool,
    pub issue: Option<Issue>,
}

/// A created issue.
#[derive(Debug, PartialEq, Eq)]
pub struct Issue {
    pub id: String,
    pub identifier: String,
    pub url: String,
    pub title: String,
}

/// Whether a call's result is the expected one: the same payload, or an
/// error of the expected value.
pub open spec fn agrees<T>(result: Result<T, Error>, expected: Result<T, ErrorView>) -> bool {
    match result {
        Ok(payload) => expected == Ok::<T, ErrorView>(payload),
        Err(e) => expected == Err::<T, ErrorView>(e@),
    }
}

/// The messages of a list of errors, in order.
pub open spec fn messages_of(errors: Seq<GraphQLError>) -> Seq<Seq<char>> {
    Seq::new(errors.len(), |i: int| errors[i].message@)
}

/// The messages, with a comma and a space between each two.
pub open spec fn joined(messages: Seq<Seq<char>>) -> Seq<char>
    decreases messages.len(),
{
    if messages.len() == 0 {
        Seq::empty()
    } else if messages.len() == 1 {
        messages[0]
    } else {
        joined(messages.drop_last()) + ", "@ + messages.last()
    }
}

/// Joins the messages of `errors`.
fn join_messages(errors: &Vec<GraphQLError>) -> (text: String)
    ensures
        text@ == joined(messages_of(errors@)),
{
    let ghost messages = messages_of(errors@);
    let mut text = String::new();
    let mut i: usize = 0;
    while i < errors.len()
        invariant
            i <= errors@.len(),
            messages == messages_of(errors@),
            text@ == joined(messages.take(i as int)),
        decreases errors@.len() - i,
    {
        proof {
            assert(messages.take(i + 1).drop_last() =~= messages.take(i as int));
            assert(messages.take(i + 1).last() == errors@[i as int].message@);
        }
        if i > 0 {
            text.append(", ");
        } else {
            assert(text@ + errors@[i as int].message@ =~= errors@[i as int].message@);
        }
        text.append(errors[i].message.as_str());
        i += 1;
    }
    proof {
        assert(messages.take(i as int) =~= messages);
    }
    text
}

impl<T> GraphQLResponse<T> {
    /// The messages of the errors that the envelope reports.
    pub open spec fn messages(self) -> Seq<Seq<char>> {
        match self.errors {
            Some(errors) => messages_of(errors@),
            None => Seq::empty(),
        }
    }

    /// What the envelope means. Errors come first, whether or not there is
    /// a payload beside them; without errors the payload has to be there.
    pub open spec fn outcome(self) -> Result<T, ErrorView> {
        if self.messages().len() > 0 {
            Err(ErrorView::RemoteGraphQLError { messages: joined(self.messages()) })
        } else {
            match self.data {
                Some(payload) => Ok(payload),
                None => Err(ErrorView::RemoteProtocolError { reason: "missing data"@ }),
            }
        }
    }

    /// The payload, or the error that the envelope stands for.
    pub fn into_result(self) -> (result: Result<T, Error>)
        ensures
            agrees(result, self.outcome()),
    {
        match self.errors {
            Some(errors) => {
                if errors.len() > 0 {
                    return Err(Error::RemoteGraphQLError { messages: join_messages(&errors) });
                }
            },
            None => {},
        }
        match self.data {
            Some(payload) => Ok(payload),
            None => Err(Error::RemoteProtocolError { reason: "missing data".to_owned() }),
        }
    }
}



/// An envelope that reports an error stands for that failure, whether or
/// not it holds a payload as well.
pub proof fn lemma_errors_take_precedence<T>(envelope: GraphQLResponse<T>)
    requires
        envelope.errors matches Some(errors) && errors@.len() > 0,
    ensures
        envelope.outcome() == Err::<T, ErrorView>(
            ErrorView::RemoteGraphQLError { messages: joined(envelope.messages()) },
        ),
{
}

/// An envelope with neither errors nor a payload does not have the agreed
/// shape.
pub proof fn lemma_missing_data_is_protocol_error<T>(envelope: GraphQLResponse<T>)
    requires
        envelope.errors matches Some(errors) ==> errors@.len() == 0,
        envelope.data is None,
    ensures
        envelope.outcome() == Err::<T, ErrorView>(
            ErrorView::RemoteProtocolError { reason: "missing data"@ },
        ),
{
}

/// What came back for a request: the status, the body as text, and the body
/// read as an envelope. Reading can fail twice, each time with a reason: the
/// body may be no envelope, and the payload of an envelope may not be the
/// payload asked for.
#[derive(Debug, PartialEq, Eq)]
pub struct Reply<T> {
    pub status: u16,
    pub body: String,
    pub decoded: Result<GraphQLResponse<Result<T, String>>, String>,
}

/// Whether a status says that the request was served.
pub open spec fn is_success(status: u16) -> bool {
    200 <= status <= 299
}

/// Whether the reply was served and its envelope reports an error.
pub open spec fn reported<T>(reply: Reply<T>) -> bool {
    &&& is_success(reply.status)
    &&& reply.decoded matches Ok(envelope) && envelope.messages().len() > 0
}

/// Whether the reply was served and its envelope holds neither an error nor
/// a payload.
pub open spec fn hollow<T>(reply: Reply<T>) -> bool {
    &&& is_success(reply.status)
    &&& reply.decoded matches Ok(envelope) && envelope.messages().len() == 0 && envelope.data
        is None
}

impl<T> Reply<T> {
    /// What the reply means. A status outside 200..=299 ends the call with
    /// the status and the body; a body that is no envelope ends it with the
    /// reason; an envelope decides the rest, and only where it reports no
    /// error does it matter whether its payload could be read.
    pub open spec fn outcome(self) -> Result<T, ErrorView> {
        if !is_success(self.status) {
            Err(ErrorView::RemoteHttpError { status: self.status, body: self.body@ })
        } else {
            match self.decoded {
                Ok(envelope) => match envelope.outcome() {
                    Ok(Ok(payload)) => Ok(payload),
                    Ok(Err(reason)) => Err(ErrorView::RemoteProtocolError { reason: reason@ }),
                    Err(e) => Err(e),
                },
                Err(reason) => Err(ErrorView::RemoteProtocolError { reason: reason@ }),
            }
        }
    }

    /// The payload, or the error that the reply stands for.
    pub fn settle(self) -> (result: Result<T, Error>)
        ensures
            agrees(result, self.outcome()),
    {
        if self.status < 200 || self.status > 299 {
            return Err(Error::RemoteHttpError { status: self.status, body: self.body });
        }
        match self.decoded {
            Ok(envelope) => match envelope.into_result() {
                Ok(Ok(payload)) => Ok(payload),
                Ok(Err(reason)) => Err(Error::RemoteProtocolError { reason }),
                Err(e) => Err(e),
            },
            Err(reason) => Err(Error::RemoteProtocolError { reason }),
        }
    }
}

/// The method of every request.
pub const METHOD: &'static str = "POST";

/// Where every request goes.
pub const ENDPOINT: &'static str = "https://api.linear.app/graphql";

/// The content type of every request.
pub const CONTENT_TYPE: &'static str = "application/json";

/// The query that looks the viewer up.
pub const VIEWER_QUERY: &'static str = "query { viewer { id name email } }";

/// The query that lists the teams.
pub const TEAMS_QUERY: &'static str = "query { teams { nodes { id name key } } }";

/// The mutation that creates an issue.
pub const ISSUE_MUTATION: &'static str =
    "mutation CreateIssue($title: String!, $teamId: String!, $description: String) { issueCreate(input: { title: $title, teamId: $teamId, description: $description }) { success issue { id identifier url title } } }";

/// One HTTP request: the method, where it goes, the two headers and the
/// body.
#[derive(Debug, PartialEq, Eq)]
pub struct Request {
    pub method: String,
    pub endpoint: String,
    pub authorization: String,
    pub content_type: String,
    pub body: String,
}

/// The value of a [`Request`].
pub struct RequestView {
    pub method: Seq<char>,
    pub endpoint: Seq<char>,
    pub authorization: Seq<char>,
    pub content_type: Seq<char>,
    pub body: Seq<char>,
}

impl View for Request {
    type V = RequestView;

    open spec fn view(&self) -> RequestView {
        RequestView {
            method: self.method@,
            endpoint: self.endpoint@,
            authorization: self.authorization@,
            content_type: self.content_type@,
            body: self.body@,
        }
    }
}

/// A text as a JSON string: what `serde_json::to_string` gives for it.
pub uninterp spec fn json_string(text: Seq<char>) -> Seq<char>;

/// Calls `serde_json::to_string` on a string slice. The contract claims that
/// the call succeeds on every string and that its result depends on the text
/// alone: writing a string never fails in that crate, it only escapes.
#[verifier::external_body]
fn json_quote(text: &str) -> (quoted: String)
    ensures
        quoted@ == json_string(text@),
{
    serde_json::to_string(text).unwrap_or_default()
}

/// The body of a request: a JSON object that holds the query as a string and
/// the variables, which are JSON already.
pub open spec fn request_body(query: Seq<char>, variables: Seq<char>) -> Seq<char> {
    "{\"query\":"@ + json_string(query) + ",\"variables\":"@ + variables + "}"@
}

/// An optional text as JSON: a string, or `null`.
pub open spec fn json_optional(text: Option<Seq<char>>) -> Seq<char> {
    match text {
        Some(t) => json_string(t),
        None => "null"@,
    }
}

/// The variables of an issue creation, as a JSON object.
pub open spec fn issue_variables(
    team_id: Seq<char>,
    title: Seq<char>,
    description: Option<Seq<char>>,
) -> Seq<char> {
    "{\"description\":"@ + json_optional(description) + ",\"teamId\":"@ + json_string(team_id)
        + ",\"title\":"@ + json_string(title) + "}"@
}

/// The request that carries `query` and `variables` under `key`: a POST to
/// the one endpoint, with the key as it is for authorization.
pub open spec fn request_for(key: Seq<char>, query: Seq<char>, variables: Seq<char>) -> RequestView {
    RequestView {
        method: METHOD@,
        endpoint: ENDPOINT@,
        authorization: key,
        content_type: CONTENT_TYPE@,
        body: request_body(query, variables),
    }
}

/// What a reply to a viewer lookup means.
pub open spec fn viewer_outcome(reply: Reply<ViewerData>) -> Result<Viewer, ErrorView> {
    match reply.outcome() {
        Ok(data) => Ok(data.viewer),
        Err(e) => Err(e),
    }
}

/// What a reply to a team listing means.
pub open spec fn teams_outcome(reply: Reply<TeamsData>) -> Result<Vec<Team>, ErrorView> {
    match reply.outcome() {
        Ok(data) => Ok(data.teams.nodes),
        Err(e) => Err(e),
    }
}

/// What a reply to an issue creation means. A payload that says the issue
/// was not created is a failure of its own, whatever else it holds; one
/// that says it was, and holds no issue, does not have the agreed shape.
pub open spec fn issue_outcome(reply: Reply<IssueCreateData>) -> Result<Issue, ErrorView> {
    match reply.outcome() {
        Ok(data) => if !data.issue_create.success {
            Err(ErrorView::IssueCreateRejected)
        } else {
            match data.issue_create.issue {
                Some(issue) => Ok(issue),
                None => Err(ErrorView::RemoteProtocolError { reason: "no issue returned"@ }),
            }
        },
        Err(e) => Err(e),
    }
}

/// A served reply whose envelope reports an error is a GraphQL failure for
/// every call, whatever payload stands beside the errors.
pub proof fn lemma_reply_errors_take_precedence(
    viewer: Reply<ViewerData>,
    teams: Reply<TeamsData>,
    issue: Reply<IssueCreateData>,
)
    ensures
        reported(viewer) ==> (viewer_outcome(viewer) matches Err(e) && e is RemoteGraphQLError),
        reported(teams) ==> (teams_outcome(teams) matches Err(e) && e is RemoteGraphQLError),
        reported(issue) ==> (issue_outcome(issue) matches Err(e) && e is RemoteGraphQLError),
{
}

/// A served reply whose envelope holds neither errors nor a payload is a
/// protocol failure for every call.
pub proof fn lemma_reply_missing_data_is_protocol_error(
    viewer: Reply<ViewerData>,
    teams: Reply<TeamsData>,
    issue: Reply<IssueCreateData>,
)
    ensures
        hollow(viewer) ==> (viewer_outcome(viewer) matches Err(e) && e is RemoteProtocolError),
        hollow(teams) ==> (teams_outcome(teams) matches Err(e) && e is RemoteProtocolError),
        hollow(issue) ==> (issue_outcome(issue) matches Err(e) && e is RemoteProtocolError),
{
}

/// The client of the service: the key that every request carries.
#[derive(Debug, PartialEq, Eq)]
pub struct LinearClient {
    api_key: String,
}

impl View for LinearClient {
    type V = Seq<char>;

    closed spec fn view(&self) -> Seq<char> {
        self.api_key@
    }
}

impl LinearClient {
    /// A client that sends `api_key`.
    pub fn new(api_key: &str) -> (client: Self)
        ensures
            client@ == api_key@,
    {
        LinearClient { api_key: api_key.to_owned() }
    }

    /// The request for `query` with `variables`, a JSON object as text, or
    /// with no variables.
    pub fn query(&self, query: &str, variables: Option<&str>) -> (request: Request)
        ensures
            request@ == request_for(
                self@,
                query@,
                match variables {
                    Some(v) => v@,
                    None => "{}"@,
                },
            ),
    {
        let mut body = "{\"query\":".to_owned();
        body.append(json_quote(query).as_str());
        body.append(",\"variables\":");
        match variables {
            Some(v) => body.append(v),
            None => body.append("{}"),
        }
        body.append("}");
        Request {
            method: METHOD.to_owned(),
            endpoint: ENDPOINT.to_owned(),
            authorization: self.api_key.clone(),
            content_type: CONTENT_TYPE.to_owned(),
            body,
        }
    }

    /// The request that looks the viewer up.
    pub fn viewer_request(&self) -> (request: Request)
        ensures
            request@ == request_for(self@, VIEWER_QUERY@, "{}"@),
    {
        self.query(VIEWER_QUERY, None)
    }

    /// The request that lists the teams.
    pub fn teams_request(&self) -> (request: Request)
        ensures
            request@ == request_for(self@, TEAMS_QUERY@, "{}"@),
    {
        self.query(TEAMS_QUERY, None)
    }

    /// The request that creates an issue in the team `team_id`.
    pub fn issue_request(&self, team_id: &str, title: &str, description: Option<&str>) -> (request:
        Request)
        ensures
            request@ == request_for(
                self@,
                ISSUE_MUTATION@,
                issue_variables(
                    team_id@,
                    title@,
                    match description {
                        Some(d) => Some(d@),
                        None => None,
                    },
                ),
            ),
    {
        let mut variables = "{\"description\":".to_owned();
        match description {
            Some(d) => variables.append(json_quote(d).as_str()),
            None => variables.append("null"),
        }
        variables.append(",\"teamId\":");
        variables.append(json_quote(team_id).as_str());
        variables.append(",\"title\":");
        variables.append(json_quote(title).as_str());
        variables.append("}");
        self.query(ISSUE_MUTATION, Some(variables.as_str()))
    }

    /// The viewer that a reply to [`LinearClient::viewer_request`] holds.
    pub fn get_viewer(reply: Reply<ViewerData>) -> (result: Result<Viewer, Error>)
        ensures
            agrees(result, viewer_outcome(reply)),
    {
        match reply.settle() {
            Ok(data) => Ok(data.viewer),
            Err(e) => Err(e),
        }
    }

    /// The teams that a reply to [`LinearClient::teams_request`] holds.
    pub fn get_teams(reply: Reply<TeamsData>) -> (result: Result<Vec<Team>, Error>)
        ensures
            agrees(result, teams_outcome(reply)),
    {
        match reply.settle() {
            Ok(data) => Ok(data.teams.nodes),
            Err(e) => Err(e),
        }
    }

    /// The issue that a reply to [`LinearClient::issue_request`] holds.
    pub fn create_issue(reply: Reply<IssueCreateData>) -> (result: Result<Issue, Error>)
        ensures
            agrees(result, issue_outcome(reply)),
    {
        match reply.settle() {
            Ok(data) => {
                if !data.issue_create.success {
                    Err(Error::IssueCreateRejected)
                } else {
                    match data.issue_create.issue {
                        Some(issue) => Ok(issue),
                        None => Err(
                            Error::RemoteProtocolError { reason: "no issue returned".to_owned() },
                        ),
                    }
                }
            },
            Err(e) => Err(e),
        }
    }
}

} // verus!
