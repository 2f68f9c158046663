//! The rule-file model of the secrets scanner: the checks and validators a
//! secret rule declares, and the regular expressions it matches with.
use pcre2::bytes::Regex as Pcre2Regex;
use vstd::prelude::*;
use vstd::string::StringExecFns;

verus! {

/// A secret rule as the scanner exposes it.
#[derive(Debug, Clone)]
pub struct SecretRule {
    pub id: String,
    pub name: String,
    pub description: String,
    pub pattern: String,
}

impl SecretRule {
    /// The digest that tells whether a rule changed between two scans: its
    /// id and pattern, joined by `:`.
    pub fn generate_diff_aware_digest(&self) -> (r: String)
        ensures
            r@ == self.id@ + ":"@ + self.pattern@,
    {
        let mut r = self.id.clone();
        r.append(":");
        r.append(self.pattern.as_str());
        r
    }
}

/// A reference to a variable of a rule's template (such as the candidate
/// secret), by name.
#[derive(Debug, Clone, PartialEq, Eq)]
pub struct TemplateVar {
    pub name: String,
}

impl TemplateVar {
    /// The variable's name.
    pub fn name(&self) -> (r: &str)
        ensures
            r@ == self.name@,
    {
        self.name.as_str()
    }
}

/// A string that may refer to template variables.
#[derive(Debug, Clone, PartialEq, Eq)]
pub struct TemplateString(pub String);

/// A string or an integer constant.
#[derive(Debug, Clone, PartialEq, Eq)]
pub enum StringOrInt {
    String(String),
    Int(i64),
}

/// A list of string or integer constants.
#[derive(Debug, Clone, PartialEq, Eq)]
pub struct StringsOrInts(pub Vec<StringOrInt>);

/// The configuration of check `equals`.
#[derive(Debug, Clone)]
pub struct RawEquals {
    /// The variable to check for equality.
    pub input: TemplateVar,
    /// The value to check against.
    pub value: StringOrInt,
}

/// The configuration of check `any-of`.
#[derive(Debug, Clone)]
pub struct RawAnyOf {
    /// The variable to check for equality.
    pub input: TemplateVar,
    /// The values to check against.
    pub values: StringsOrInts,
}

/// The configuration of check `contains`.
#[derive(Debug, Clone)]
pub struct RawContains {
    /// The string variable to check.
    pub input: TemplateVar,
    /// The substring to search for.
    pub substring: String,
}

/// A check and its configuration.
#[derive(Debug, Clone)]
pub enum RawCheck {
    Equals(RawEquals),
    AnyOf(RawAnyOf),
    Contains(RawContains),
}

impl RawCheck {
    /// The variable that the check reads.
    pub open spec fn input_spec(&self) -> Seq<char> {
        match self {
            RawCheck::Equals(raw) => raw.input.name@,
            RawCheck::AnyOf(raw) => raw.input.name@,
            RawCheck::Contains(raw) => raw.input.name@,
        }
    }

    /// Returns the name of the input variable for this check.
    pub fn input_variable(&self) -> (r: &str)
        ensures
            r@ == self.input_spec(),
    {
        match self {
            RawCheck::Equals(raw) => raw.input.name(),
            RawCheck::AnyOf(raw) => raw.input.name(),
            RawCheck::Contains(raw) => raw.input.name(),
        }
    }
}

/// The status of a secret.
#[derive(Debug, Clone, Copy, PartialEq, Eq, Structural)]
pub enum RawSecretStatus {
    Valid,
    Invalid,
    Inconclusive,
}

/// The severity of a validation result.
#[derive(Debug, Clone, Copy, PartialEq, Eq, Structural)]
pub enum RawSeverity {
    Error,
    Warning,
    Notice,
    Info,
}

/// An HTTP method.
#[derive(Debug, Clone, Copy, PartialEq, Eq, Hash, Structural)]
pub enum RawMethod {
    Get,
    Post,
}

/// What a validator does after a response handler matched, short of
/// returning a result.
#[derive(Debug, Clone, Copy, PartialEq, Eq, Structural)]
pub enum RawControlFlow {
    Retry,
    Break,
}

/// The result a validator returns.
#[derive(Debug, Clone, Copy, PartialEq, Eq, Structural)]
pub struct RawActionReturn {
    pub status: RawSecretStatus,
    pub severity: RawSeverity,
}

/// What a response handler does when it matches.
#[derive(Debug, Clone, Copy, PartialEq, Eq, Structural)]
pub enum RawAction {
    Return(RawActionReturn),
    ControlFlow(RawControlFlow),
}

/// The body of an HTTP request.
#[derive(Debug, Clone)]
pub struct RawBody {
    pub data: TemplateString,
    pub content_type: String,
}

/// The headers of an HTTP request, by name.
#[derive(Debug, Clone)]
pub struct RawHeaders(pub Vec<(String, TemplateString)>);

/// An HTTP request.
#[derive(Debug, Clone)]
pub struct RawRequest {
    pub url: TemplateString,
    pub headers: Option<RawHeaders>,
    pub method: RawMethod,
    pub body: Option<RawBody>,
}

/// A response handler: a check on the response, and what to do when it
/// holds.
#[derive(Debug, Clone)]
pub struct RawHandler {
    pub on_match: RawCheck,
    pub action: RawAction,
}

/// The handlers of a response, tried in order, and the result when none
/// matches.
#[derive(Debug, Clone)]
pub struct RawResponseHandler {
    pub handler_list: Vec<RawHandler>,
    pub default_result: RawActionReturn,
}

/// A validator that sends one request.
#[derive(Debug, Clone)]
pub struct RawCfgSimpleRequest {
    pub request: RawRequest,
    pub response_handler: RawResponseHandler,
}

/// The kinds of HTTP validator.
#[derive(Debug, Clone)]
pub enum RawExtension {
    Simple(RawCfgSimpleRequest),
}

/// An HTTP validator.
#[derive(Debug, Clone)]
pub struct RawHttp(pub RawExtension);

/// A secret validator and its configuration.
#[derive(Debug, Clone)]
pub enum RawValidator {
    Http(RawHttp),
}

#[verifier::external_type_specification]
#[verifier::external_body]
pub struct ExPcre2Regex(Pcre2Regex);

#[verifier::external_type_specification]
#[verifier::external_body]
pub struct ExPcre2Error(pcre2::Error);

/// Whether PCRE2 accepts `pattern` with the default options.
pub uninterp spec fn pcre2_compiles(pattern: Seq<char>) -> bool;

/// Relies on `pcre2::bytes::RegexBuilder::build` with a default builder:
/// whether it compiles depends on the pattern alone.
#[verifier::external_body]
fn build_regex(pattern: &str) -> (r: Result<Pcre2Regex, pcre2::Error>)
    ensures
        r is Ok <==> pcre2_compiles(pattern@),
{
    pcre2::bytes::RegexBuilder::new().build(pattern)
}

/// Relies on `pcre2::bytes::Regex::is_match`: whether the regex matches
/// somewhere in `subject`, or an error where PCRE2 gives up (a match limit).
#[verifier::external_body]
fn regex_is_match(regex: &Pcre2Regex, subject: &[u8]) -> (r: Result<bool, pcre2::Error>) {
    regex.is_match(subject)
}

/// A checker that runs a candidate against a PCRE2 regular expression.
#[derive(Debug)]
pub struct Regex(Pcre2Regex);

impl Regex {
    /// The compiled regex that the checker runs.
    pub closed spec fn compiled(&self) -> Pcre2Regex {
        self.0
    }

    /// Compiles `pattern` (PCRE2 syntax). It fails exactly where PCRE2
    /// rejects the pattern.
    pub fn try_new(pattern: &str) -> (r: Result<Self, pcre2::Error>)
        ensures
            r is Ok <==> pcre2_compiles(pattern@),
    {
        match build_regex(pattern) {
            Ok(re) => Ok(Regex(re)),
            Err(e) => Err(e),
        }
    }

    /// A checker around a compiled regex.
    pub fn new(regex: Pcre2Regex) -> (r: Self)
        ensures
            r.compiled() == regex,
    {
        Regex(regex)
    }

    /// Whether the regex matches somewhere in `input`; a matching error
    /// counts as no match.
    pub fn check(&self, input: &[u8]) -> bool {
        match regex_is_match(&self.0, input) {
            Ok(b) => b,
            Err(_) => false,
        }
    }
}

} // verus!
