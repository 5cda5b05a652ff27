//! Human-in-the-loop confirmation: which actions need a human decision,
//! how each is explained to the user, and single-use, action-bound,
//! time-limited approval tokens.
use vstd::prelude::*;
use crate::clock::{in_clock_range, is_v4_uuid, new_uuid, now_millis, uuid_string, uuid_text};
use crate::net::{parse_url_host, url_parse_host};
use crate::text::{dec_str, dec_string, digit_char, digit_to_char, push_char, push_str, str_eq, to_owned_string};

verus! {

/// Monetary amount with currency.
#[derive(Debug, Clone)]
pub struct Money {
    /// Amount in the smallest unit (e.g., cents for USD).
    pub amount_minor: i64,
    /// ISO 4217 currency code (e.g., "USD", "EUR").
    pub currency: String,
}

/// The display symbol of a currency code; unknown codes show as the code.
pub open spec fn symbol_of(cur: Seq<char>) -> Seq<char> {
    if cur == "USD"@ {
        "$"@
    } else if cur == "EUR"@ {
        "€"@
    } else if cur == "GBP"@ {
        "£"@
    } else if cur == "JPY"@ {
        "¥"@
    } else {
        cur
    }
}

/// `|a|`.
pub open spec fn abs_int(a: int) -> nat {
    if a < 0 {
        (-a) as nat
    } else {
        a as nat
    }
}

/// How an amount is displayed: symbol, a minus sign for every negative
/// amount, the whole units of its magnitude, a dot, and the two-digit
/// remainder of the minor units.
pub open spec fn money_text(m: Money) -> Seq<char> {
    let a = m.amount_minor as int;
    let major = abs_int(a) / 100;
    let minor = abs_int(a) % 100;
    symbol_of(m.currency@) + (if a < 0 {
        seq!['-']
    } else {
        Seq::<char>::empty()
    }) + dec_str(major) + "."@ + seq![digit_char(minor / 10), digit_char(minor % 10)]
}

impl Money {
    /// Create a new monetary amount.
    pub fn new(amount_minor: i64, currency: &str) -> (r: Self)
        ensures
            r.amount_minor == amount_minor,
            r.currency@ == currency@,
    {
        Money { amount_minor, currency: to_owned_string(currency) }
    }

    /// Format the amount for display (e.g., "$12.34").
    pub fn display(&self) -> (r: String)
        ensures
            r@ == money_text(*self),
    {
        let c = self.currency.as_str();
        let mut s = if str_eq(c, "USD") {
            to_owned_string("$")
        } else if str_eq(c, "EUR") {
            to_owned_string("€")
        } else if str_eq(c, "GBP") {
            to_owned_string("£")
        } else if str_eq(c, "JPY") {
            to_owned_string("¥")
        } else {
            to_owned_string(c)
        };
        let a = self.amount_minor as i128;
        let mag: u64 = (if a < 0 {
            -a
        } else {
            a
        }) as u64;
        let major = mag / 100;
        let minor = mag % 100;
        if a < 0 {
            push_char(&mut s, '-');
        }
        let digits = dec_string(major);
        push_str(&mut s, digits.as_str());
        push_str(&mut s, ".");
        push_char(&mut s, digit_to_char(minor / 10));
        push_char(&mut s, digit_to_char(minor % 10));
        assert(s@ =~= money_text(*self));
        s
    }
}

/// Summary of a form field involved in an action.
#[derive(Debug, Clone)]
pub struct FieldSummary {
    /// Human-readable label for this field.
    pub label: String,
    /// Type of data (e.g., "email", "credit card", "password").
    pub data_type: String,
    /// Whether this field contains sensitive data.
    pub is_sensitive: bool,
}

/// Pricing information for a service.
#[derive(Debug, Clone)]
pub struct PricingInfo {
    /// Cost description in plain language.
    pub description: String,
    /// Monthly cost if applicable.
    pub monthly_cost: Option<Money>,
    /// One-time cost if applicable.
    pub one_time_cost: Option<Money>,
    /// Whether there's a free trial.
    pub has_free_trial: bool,
    /// Free trial duration in days.
    pub trial_days: Option<u32>,
}

/// Type of credential being used.
#[derive(Debug, Clone)]
pub enum CredentialType {
    UsernamePassword,
    ApiKey,
    OAuthToken,
    Certificate,
    Biometric,
    Other(String),
}

/// Classes of action that need a human confirmation, each with the context
/// needed to explain it.
#[derive(Debug, Clone)]
pub enum HilTriggerClass {
    /// Submitting a form to a financial institution.
    FinancialFormSubmission {
        institution: String,
        amount: Option<Money>,
        fields_involved: Vec<FieldSummary>,
    },
    /// Creating an account or subscription.
    AccountCreation {
        service: String,
        implied_cost: Option<PricingInfo>,
        /// Terms of service URL (serialized).
        terms_url: Option<String>,
    },
    /// Using a stored credential on a new site.
    NewAuthenticationSite { domain: String, credential_type: CredentialType },
    /// Calling a third-party API with usage billing.
    BilledApiCall {
        provider: String,
        estimated_cost: Option<Money>,
        action_description: String,
    },
    /// Sending a communication on the user's behalf.
    CommunicationOnBehalf {
        channel: String,
        recipient_summary: String,
        content_preview: String,
    },
    /// Downloading and executing something.
    ExecutionRequest {
        /// Source URL of the executable (serialized).
        source: String,
        description: String,
    },
    /// Any other action with external side effects.
    ExternalSideEffect { description: String, reversible: bool },
    /// A CAPTCHA must be solved before proceeding.
    CaptchaRequired { site: String, captcha_type: String },
}

/// The plain-language summary of a trigger.
pub open spec fn summary_of(t: HilTriggerClass) -> Seq<char> {
    match t {
        HilTriggerClass::FinancialFormSubmission { institution, amount, .. } => match amount {
            Some(m) => "Send a payment of "@ + money_text(m) + " to "@ + institution@,
            None => "Submit financial information to "@ + institution@,
        },
        HilTriggerClass::AccountCreation { service, implied_cost, .. } => match implied_cost {
            Some(p) => "Create an account on "@ + service@ + " — "@ + p.description@,
            None => "Create an account on "@ + service@,
        },
        HilTriggerClass::NewAuthenticationSite { domain, .. } => "Sign in to "@ + domain@
            + " using your saved credentials"@,
        HilTriggerClass::BilledApiCall { provider, estimated_cost, action_description } => match estimated_cost {
            Some(c) => action_description@ + " via "@ + provider@ + " (estimated cost: "@ + money_text(
                c,
            ) + ")"@,
            None => action_description@ + " via "@ + provider@,
        },
        HilTriggerClass::CommunicationOnBehalf { channel, recipient_summary, .. } => "Send a "@
            + channel@ + " to "@ + recipient_summary@,
        HilTriggerClass::ExecutionRequest { description, .. } => "Download and run: "@
            + description@,
        HilTriggerClass::ExternalSideEffect { description, reversible } => description@ + if reversible {
            " (can be undone)"@
        } else {
            " (cannot be undone)"@
        },
        HilTriggerClass::CaptchaRequired { site, captcha_type } => "CAPTCHA detected on "@ + site@
            + " ("@ + captcha_type@ + "). Please solve it to continue."@,
    }
}

/// Whether a trigger involves money: financial submissions, priced account
/// creation and billed API calls.
pub open spec fn money_involved(t: HilTriggerClass) -> bool {
    match t {
        HilTriggerClass::FinancialFormSubmission { .. } => true,
        HilTriggerClass::AccountCreation { implied_cost, .. } => implied_cost is Some,
        HilTriggerClass::BilledApiCall { .. } => true,
        _ => false,
    }
}

/// `a` followed by `b`.
fn join2(a: &str, b: &str) -> (r: String)
    ensures
        r@ == a@ + b@,
{
    let mut s = to_owned_string(a);
    push_str(&mut s, b);
    s
}

/// `a`, `b`, `c` in order.
fn join3(a: &str, b: &str, c: &str) -> (r: String)
    ensures
        r@ == a@ + b@ + c@,
{
    let mut s = join2(a, b);
    push_str(&mut s, c);
    s
}

/// `a`, `b`, `c`, `d` in order.
fn join4(a: &str, b: &str, c: &str, d: &str) -> (r: String)
    ensures
        r@ == a@ + b@ + c@ + d@,
{
    let mut s = join3(a, b, c);
    push_str(&mut s, d);
    s
}

/// `a`, `b`, `c`, `d`, `e` in order.
fn join5(a: &str, b: &str, c: &str, d: &str, e: &str) -> (r: String)
    ensures
        r@ == a@ + b@ + c@ + d@ + e@,
{
    let mut s = join4(a, b, c, d);
    push_str(&mut s, e);
    s
}

/// `a` … `f` in order.
fn join6(a: &str, b: &str, c: &str, d: &str, e: &str, f: &str) -> (r: String)
    ensures
        r@ == a@ + b@ + c@ + d@ + e@ + f@,
{
    let mut s = join5(a, b, c, d, e);
    push_str(&mut s, f);
    s
}

impl HilTriggerClass {
    /// A plain-language summary of this trigger for the user.
    pub fn plain_language_summary(&self) -> (r: String)
        ensures
            r@ == summary_of(*self),
    {
        match self {
            HilTriggerClass::FinancialFormSubmission { institution, amount, .. } => match amount {
                Some(money) => {
                    let m = money.display();
                    join4("Send a payment of ", m.as_str(), " to ", institution.as_str())
                },
                None => join2("Submit financial information to ", institution.as_str()),
            },
            HilTriggerClass::AccountCreation { service, implied_cost, .. } => match implied_cost {
                Some(pricing) => join4(
                    "Create an account on ",
                    service.as_str(),
                    " — ",
                    pricing.description.as_str(),
                ),
                None => join2("Create an account on ", service.as_str()),
            },
            HilTriggerClass::NewAuthenticationSite { domain, .. } => join3(
                "Sign in to ",
                domain.as_str(),
                " using your saved credentials",
            ),
            HilTriggerClass::BilledApiCall { provider, estimated_cost, action_description } => {
                match estimated_cost {
                    Some(cost) => {
                        let c = cost.display();
                        join6(
                            action_description.as_str(),
                            " via ",
                            provider.as_str(),
                            " (estimated cost: ",
                            c.as_str(),
                            ")",
                        )
                    },
                    None => join3(action_description.as_str(), " via ", provider.as_str()),
                }
            },
            HilTriggerClass::CommunicationOnBehalf { channel, recipient_summary, .. } => join4(
                "Send a ",
                channel.as_str(),
                " to ",
                recipient_summary.as_str(),
            ),
            HilTriggerClass::ExecutionRequest { description, .. } => join2(
                "Download and run: ",
                description.as_str(),
            ),
            HilTriggerClass::ExternalSideEffect { description, reversible } => {
                if *reversible {
                    join2(description.as_str(), " (can be undone)")
                } else {
                    join2(description.as_str(), " (cannot be undone)")
                }
            },
            HilTriggerClass::CaptchaRequired { site, captcha_type } => join5(
                "CAPTCHA detected on ",
                site.as_str(),
                " (",
                captcha_type.as_str(),
                "). Please solve it to continue.",
            ),
        }
    }

    /// Whether this trigger class involves money.
    pub fn involves_money(&self) -> (r: bool)
        ensures
            r == money_involved(*self),
    {
        match self {
            HilTriggerClass::FinancialFormSubmission { .. } => true,
            HilTriggerClass::AccountCreation { implied_cost, .. } => implied_cost.is_some(),
            HilTriggerClass::BilledApiCall { .. } => true,
            _ => false,
        }
    }
}

/// Visual severity level for the confirmation dialog.
#[derive(Debug, Clone, Copy, PartialEq, Eq, Structural)]
pub enum ConfirmationSeverity {
    /// Informational — low risk.
    Low,
    /// Involves data or credentials.
    Medium,
    /// Involves money, legal agreements, or irreversible actions.
    High,
    /// Large sums of money or highly sensitive operations.
    Critical,
}

/// The data needed to render a confirmation dialog.
#[derive(Debug, Clone)]
pub struct HilPresentation {
    /// What will happen, in plain language.
    pub what_will_happen: String,
    /// The domain or service being interacted with.
    pub domain_or_service: String,
    /// Labels of the data involved (never values).
    pub data_involved: Vec<String>,
    /// Cost information if this involves money.
    pub cost_display: Option<String>,
    /// Whether this action can be reversed.
    pub is_reversible: bool,
    /// Suggested alternatives.
    pub alternatives: Vec<String>,
    /// Seconds before the confirm button becomes clickable.
    pub countdown_seconds: u32,
    /// Severity level for visual styling.
    pub severity: ConfirmationSeverity,
}

/// A presentation by its string views.
pub struct PresentationView {
    pub what_will_happen: Seq<char>,
    pub domain_or_service: Seq<char>,
    pub data_involved: Seq<Seq<char>>,
    pub cost_display: Option<Seq<char>>,
    pub is_reversible: bool,
    pub alternatives: Seq<Seq<char>>,
    pub countdown_seconds: u32,
    pub severity: ConfirmationSeverity,
}

/// The views of a list of strings.
pub open spec fn strs(v: Seq<String>) -> Seq<Seq<char>> {
    v.map_values(|s: String| s@)
}

impl View for HilPresentation {
    type V = PresentationView;

    open spec fn view(&self) -> PresentationView {
        PresentationView {
            what_will_happen: self.what_will_happen@,
            domain_or_service: self.domain_or_service@,
            data_involved: strs(self.data_involved@),
            cost_display: match self.cost_display {
                Some(c) => Some(c@),
                None => None,
            },
            is_reversible: self.is_reversible,
            alternatives: strs(self.alternatives@),
            countdown_seconds: self.countdown_seconds,
            severity: self.severity,
        }
    }
}

/// How a credential type is described to the user.
pub open spec fn credential_text(c: CredentialType) -> Seq<char> {
    match c {
        CredentialType::UsernamePassword => "your saved login"@,
        CredentialType::ApiKey => "an API key"@,
        CredentialType::OAuthToken => "a connected account"@,
        CredentialType::Certificate => "a security certificate"@,
        CredentialType::Biometric => "biometric verification"@,
        CredentialType::Other(s) => s@,
    }
}

/// The host shown for a download source: the URL's host, else "unknown".
pub open spec fn source_host(source: Seq<char>) -> Seq<char> {
    match url_parse_host(source) {
        Some(Some(h)) => h,
        _ => "unknown"@,
    }
}

/// The field labels of a list of field summaries.
pub open spec fn field_labels(f: Seq<FieldSummary>) -> Seq<Seq<char>> {
    f.map_values(|x: FieldSummary| x.label@)
}

/// The dialog for a trigger, given the labels of the vault data involved.
pub open spec fn presentation_of(t: HilTriggerClass, labels: Seq<Seq<char>>) -> PresentationView {
    match t {
        HilTriggerClass::FinancialFormSubmission { institution, amount, fields_involved } => PresentationView {
            what_will_happen: match amount {
                Some(m) => "Your assistant wants to send "@ + money_text(m) + " to "@ + institution@,
                None => "Your assistant wants to submit financial information to "@ + institution@,
            },
            domain_or_service: institution@,
            data_involved: labels + field_labels(fields_involved@),
            cost_display: match amount {
                Some(m) => Some(money_text(m)),
                None => None,
            },
            is_reversible: false,
            alternatives: seq!["Do this yourself instead"@, "Change the amount"@],
            countdown_seconds: 5,
            severity: ConfirmationSeverity::Critical,
        },
        HilTriggerClass::AccountCreation { service, implied_cost, terms_url } => PresentationView {
            what_will_happen: "Your assistant wants to create an account on "@ + service@,
            domain_or_service: service@,
            data_involved: labels,
            cost_display: match implied_cost {
                Some(p) => Some(p.description@),
                None => None,
            },
            is_reversible: true,
            alternatives: match terms_url {
                Some(u) => seq!["Create the account yourself"@, "Read the terms first: "@ + u@],
                None => seq!["Create the account yourself"@],
            },
            countdown_seconds: 3,
            severity: if implied_cost is Some {
                ConfirmationSeverity::High
            } else {
                ConfirmationSeverity::Medium
            },
        },
        HilTriggerClass::NewAuthenticationSite { domain, credential_type } => PresentationView {
            what_will_happen: "Your assistant wants to sign in to "@ + domain@ + " using "@
                + credential_text(credential_type),
            domain_or_service: domain@,
            data_involved: labels,
            cost_display: None,
            is_reversible: true,
            alternatives: seq!["Sign in yourself"@],
            countdown_seconds: 3,
            severity: ConfirmationSeverity::Medium,
        },
        HilTriggerClass::BilledApiCall { provider, estimated_cost, action_description } => PresentationView {
            what_will_happen: "Your assistant wants to use "@ + provider@ + " to: "@
                + action_description@,
            domain_or_service: provider@,
            data_involved: labels,
            cost_display: match estimated_cost {
                Some(m) => Some(money_text(m)),
                None => None,
            },
            is_reversible: false,
            alternatives: seq!["Do this manually"@],
            countdown_seconds: 3,
            severity: ConfirmationSeverity::High,
        },
        HilTriggerClass::CommunicationOnBehalf { channel, recipient_summary, content_preview } => PresentationView {
            what_will_happen: "Your assistant wants to send a "@ + channel@ + " to "@
                + recipient_summary@,
            domain_or_service: channel@,
            data_involved: labels.push("Message preview: "@ + content_preview@),
            cost_display: None,
            is_reversible: false,
            alternatives: seq!["Edit the message first"@, "Send it yourself"@],
            countdown_seconds: 5,
            severity: ConfirmationSeverity::High,
        },
        HilTriggerClass::ExecutionRequest { source, description } => PresentationView {
            what_will_happen: "Your assistant wants to download and run something: "@
                + description@,
            domain_or_service: source_host(source@),
            data_involved: labels,
            cost_display: None,
            is_reversible: false,
            alternatives: seq!["Download it yourself to review first"@],
            countdown_seconds: 5,
            severity: ConfirmationSeverity::Critical,
        },
        HilTriggerClass::ExternalSideEffect { description, reversible } => PresentationView {
            what_will_happen: "Your assistant wants to: "@ + description@,
            domain_or_service: "External service"@,
            data_involved: labels,
            cost_display: None,
            is_reversible: reversible,
            alternatives: seq!["Do this yourself instead"@],
            countdown_seconds: 3,
            severity: if reversible {
                ConfirmationSeverity::Medium
            } else {
                ConfirmationSeverity::High
            },
        },
        HilTriggerClass::CaptchaRequired { site, captcha_type } => PresentationView {
            what_will_happen: "Your assistant needs you to solve a CAPTCHA on "@ + site@ + " ("@
                + captcha_type@ + ")"@,
            domain_or_service: site@,
            data_involved: labels,
            cost_display: None,
            is_reversible: true,
            alternatives: seq!["Solve it yourself in the page"@],
            countdown_seconds: 0,
            severity: ConfirmationSeverity::Low,
        },
    }
}

/// A vector of owned strings from literals.
fn string_vec1(a: &str) -> (r: Vec<String>)
    ensures
        strs(r@) == seq![a@],
{
    let mut v: Vec<String> = Vec::new();
    v.push(to_owned_string(a));
    assert(strs(v@) =~= seq![a@]);
    v
}

/// A vector of two owned strings.
fn string_vec2(a: &str, b: &str) -> (r: Vec<String>)
    ensures
        strs(r@) == seq![a@, b@],
{
    let mut v: Vec<String> = Vec::new();
    v.push(to_owned_string(a));
    v.push(to_owned_string(b));
    assert(strs(v@) =~= seq![a@, b@]);
    v
}

/// A copy of a list of strings.
fn copy_strings(v: &[String]) -> (r: Vec<String>)
    ensures
        strs(r@) == strs(v@),
{
    let mut out: Vec<String> = Vec::new();
    let mut i: usize = 0;
    while i < v.len()
        invariant
            i <= v@.len(),
            strs(out@) == strs(v@.take(i as int)),
        decreases v@.len() - i,
    {
        let ghost before = out@;
        out.push(to_owned_string(v[i].as_str()));
        assert(v@.take(i + 1) =~= v@.take(i as int).push(v@[i as int]));
        assert(strs(out@) =~= strs(before).push(v@[i as int]@));
        assert(strs(v@.take(i + 1)) =~= strs(v@.take(i as int)).push(v@[i as int]@));
        i += 1;
    }
    assert(v@.take(v@.len() as int) =~= v@);
    out
}

impl HilPresentation {
    /// Build the dialog for a trigger and the labels of the vault data
    /// involved.
    pub fn from_trigger(trigger: &HilTriggerClass, data_labels: &[String]) -> (r: Self)
        ensures
            r@ == presentation_of(*trigger, strs(data_labels@)),
    {
        let labels = copy_strings(data_labels);
        match trigger {
            HilTriggerClass::FinancialFormSubmission { institution, amount, fields_involved } => {
                let what_will_happen = match amount {
                    Some(money) => {
                        let m = money.display();
                        join4(
                            "Your assistant wants to send ",
                            m.as_str(),
                            " to ",
                            institution.as_str(),
                        )
                    },
                    None => join2(
                        "Your assistant wants to submit financial information to ",
                        institution.as_str(),
                    ),
                };
                let cost_display = match amount {
                    Some(m) => Some(m.display()),
                    None => None,
                };
                let mut all_data = labels;
                let mut i: usize = 0;
                let ghost base = strs(all_data@);
                while i < fields_involved.len()
                    invariant
                        i <= fields_involved@.len(),
                        strs(all_data@) == base + field_labels(fields_involved@.take(i as int)),
                    decreases fields_involved@.len() - i,
                {
                    let ghost before = all_data@;
                    all_data.push(to_owned_string(fields_involved[i].label.as_str()));
                    let ghost f = fields_involved@;
                    assert(f.take(i + 1) =~= f.take(i as int).push(f[i as int]));
                    assert(strs(all_data@) =~= strs(before).push(f[i as int].label@));
                    assert(field_labels(f.take(i + 1)) =~= field_labels(f.take(i as int)).push(
                        f[i as int].label@,
                    ));
                    i += 1;
                }
                assert(fields_involved@.take(fields_involved@.len() as int) =~= fields_involved@);
                let alternatives = string_vec2("Do this yourself instead", "Change the amount");
                assert(strs(alternatives@) == presentation_of(*trigger, strs(data_labels@)).alternatives);
                HilPresentation {
                    what_will_happen,
                    domain_or_service: to_owned_string(institution.as_str()),
                    data_involved: all_data,
                    cost_display,
                    is_reversible: false,
                    alternatives: string_vec2("Do this yourself instead", "Change the amount"),
                    countdown_seconds: 5,
                    severity: ConfirmationSeverity::Critical,
                }
            },
            HilTriggerClass::AccountCreation { service, implied_cost, terms_url } => {
                let cost_display = match implied_cost {
                    Some(p) => Some(to_owned_string(p.description.as_str())),
                    None => None,
                };
                let alternatives = match terms_url {
                    Some(url) => {
                        let mut v = string_vec1("Create the account yourself");
                        let ghost b = strs(v@);
                        v.push(join2("Read the terms first: ", url.as_str()));
                        assert(strs(v@) =~= b.push("Read the terms first: "@ + url@));
                        v
                    },
                    None => string_vec1("Create the account yourself"),
                };
                assert(strs(alternatives@) == presentation_of(*trigger, strs(data_labels@)).alternatives);
                HilPresentation {
                    what_will_happen: join2(
                        "Your assistant wants to create an account on ",
                        service.as_str(),
                    ),
                    domain_or_service: to_owned_string(service.as_str()),
                    data_involved: labels,
                    cost_display,
                    is_reversible: true,
                    alternatives,
                    countdown_seconds: 3,
                    severity: if implied_cost.is_some() {
                        ConfirmationSeverity::High
                    } else {
                        ConfirmationSeverity::Medium
                    },
                }
            },
            HilTriggerClass::NewAuthenticationSite { domain, credential_type } => {
                let cred_desc: &str = match credential_type {
                    CredentialType::UsernamePassword => "your saved login",
                    CredentialType::ApiKey => "an API key",
                    CredentialType::OAuthToken => "a connected account",
                    CredentialType::Certificate => "a security certificate",
                    CredentialType::Biometric => "biometric verification",
                    CredentialType::Other(s) => s.as_str(),
                };
                HilPresentation {
                    what_will_happen: join4(
                        "Your assistant wants to sign in to ",
                        domain.as_str(),
                        " using ",
                        cred_desc,
                    ),
                    domain_or_service: to_owned_string(domain.as_str()),
                    data_involved: labels,
                    cost_display: None,
                    is_reversible: true,
                    alternatives: string_vec1("Sign in yourself"),
                    countdown_seconds: 3,
                    severity: ConfirmationSeverity::Medium,
                }
            },
            HilTriggerClass::BilledApiCall { provider, estimated_cost, action_description } => {
                let cost_display = match estimated_cost {
                    Some(m) => Some(m.display()),
                    None => None,
                };
                HilPresentation {
                    what_will_happen: join4(
                        "Your assistant wants to use ",
                        provider.as_str(),
                        " to: ",
                        action_description.as_str(),
                    ),
                    domain_or_service: to_owned_string(provider.as_str()),
                    data_involved: labels,
                    cost_display,
                    is_reversible: false,
                    alternatives: string_vec1("Do this manually"),
                    countdown_seconds: 3,
                    severity: ConfirmationSeverity::High,
                }
            },
            HilTriggerClass::CommunicationOnBehalf { channel, recipient_summary, content_preview } => {
                let mut d = labels;
                let ghost b = strs(d@);
                d.push(join2("Message preview: ", content_preview.as_str()));
                assert(strs(d@) =~= b.push("Message preview: "@ + content_preview@));
                HilPresentation {
                    what_will_happen: join4(
                        "Your assistant wants to send a ",
                        channel.as_str(),
                        " to ",
                        recipient_summary.as_str(),
                    ),
                    domain_or_service: to_owned_string(channel.as_str()),
                    data_involved: d,
                    cost_display: None,
                    is_reversible: false,
                    alternatives: string_vec2("Edit the message first", "Send it yourself"),
                    countdown_seconds: 5,
                    severity: ConfirmationSeverity::High,
                }
            },
            HilTriggerClass::ExecutionRequest { source, description } => {
                let host = match parse_url_host(source.as_str()) {
                    Some(Some(h)) => h,
                    _ => to_owned_string("unknown"),
                };
                HilPresentation {
                    what_will_happen: join2(
                        "Your assistant wants to download and run something: ",
                        description.as_str(),
                    ),
                    domain_or_service: host,
                    data_involved: labels,
                    cost_display: None,
                    is_reversible: false,
                    alternatives: string_vec1("Download it yourself to review first"),
                    countdown_seconds: 5,
                    severity: ConfirmationSeverity::Critical,
                }
            },
            HilTriggerClass::ExternalSideEffect { description, reversible } => {
                HilPresentation {
                    what_will_happen: join2("Your assistant wants to: ", description.as_str()),
                    domain_or_service: to_owned_string("External service"),
                    data_involved: labels,
                    cost_display: None,
                    is_reversible: *reversible,
                    alternatives: string_vec1("Do this yourself instead"),
                    countdown_seconds: 3,
                    severity: if *reversible {
                        ConfirmationSeverity::Medium
                    } else {
                        ConfirmationSeverity::High
                    },
                }
            },
            HilTriggerClass::CaptchaRequired { site, captcha_type } => {
                HilPresentation {
                    what_will_happen: join5(
                        "Your assistant needs you to solve a CAPTCHA on ",
                        site.as_str(),
                        " (",
                        captcha_type.as_str(),
                        ")",
                    ),
                    domain_or_service: to_owned_string(site.as_str()),
                    data_involved: labels,
                    cost_display: None,
                    is_reversible: true,
                    alternatives: string_vec1("Solve it yourself in the page"),
                    countdown_seconds: 0,
                    severity: ConfirmationSeverity::Low,
                }
            },
        }
    }
}

/// Every dialog about money is at least high severity, and every
/// irreversible action has a countdown of at least three seconds.
pub proof fn lemma_money_dialogs_are_serious(t: HilTriggerClass, labels: Seq<Seq<char>>)
    requires
        money_involved(t),
    ensures
        presentation_of(t, labels).severity == ConfirmationSeverity::High || presentation_of(
            t,
            labels,
        ).severity == ConfirmationSeverity::Critical,
        !presentation_of(t, labels).is_reversible ==> presentation_of(t, labels).countdown_seconds >= 3,
{
}

/// Every irreversible action gets a countdown of at least three seconds
/// and at least medium severity.
/// Whether what a trigger asks for can be undone: creating an account,
/// signing in to a new site and solving a CAPTCHA can; a side effect can
/// when it is declared reversible; a payment, a billed call, a message
/// sent on the user's behalf and running code cannot.
pub open spec fn can_be_undone(t: HilTriggerClass) -> bool {
    match t {
        HilTriggerClass::AccountCreation { .. } => true,
        HilTriggerClass::NewAuthenticationSite { .. } => true,
        HilTriggerClass::CaptchaRequired { .. } => true,
        HilTriggerClass::ExternalSideEffect { reversible, .. } => reversible,
        _ => false,
    }
}

/// A dialog tells the user the action can be undone exactly when it can:
/// in particular a message sent on the user's behalf, a financial
/// submission, a billed API call and running code are shown as final.
pub proof fn lemma_dialog_reversibility(t: HilTriggerClass, labels: Seq<Seq<char>>)
    ensures
        presentation_of(t, labels).is_reversible == can_be_undone(t),
{
}

pub proof fn lemma_irreversible_needs_countdown(t: HilTriggerClass, labels: Seq<Seq<char>>)
    requires
        !presentation_of(t, labels).is_reversible,
    ensures
        presentation_of(t, labels).countdown_seconds >= 3,
        presentation_of(t, labels).severity != ConfirmationSeverity::Low,
{
}


/// Errors of the confirmation gate.
#[derive(Debug)]
pub enum HilError {
    /// The approval has expired (30-second window).
    ApprovalExpired,
    /// The approval was for a different action.
    ApprovalMismatch { expected: String, actual: String },
    /// The user rejected the action.
    UserRejected { reason: String },
    /// The dialog was dismissed without a decision.
    Dismissed,
    /// No decision came in time.
    Timeout { timeout_seconds: u64 },
    /// Internal error.
    Internal(String),
}

/// Result of a gate operation.
pub type HilResult<T> = Result<T, HilError>;

/// Unique identifier of an action that needs approval.
#[derive(Debug, Clone, Copy, Hash, PartialEq, Eq, Structural)]
pub struct ActionId(pub u128);

impl ActionId {
    /// A new random action identifier: a random version-4 UUID.
    pub fn new() -> (r: Self)
        ensures
            is_v4_uuid(r.0),
    {
        ActionId(new_uuid())
    }

    /// The hyphenated UUID text of this identifier.
    pub fn to_string(&self) -> (r: String)
        ensures
            r@ == uuid_text(self.0),
    {
        uuid_string(self.0)
    }
}

impl Default for ActionId {
    fn default() -> (r: Self) {
        ActionId::new()
    }
}

/// How long an approval stays valid, in milliseconds (30 seconds).
pub const APPROVAL_EXPIRY_MS: i64 = 30_000;

/// Details of the user's decision.
#[derive(Debug, Clone)]
pub struct ApprovalDecision {
    /// Whether the user approved the action.
    pub approved: bool,
    /// Optional note from the user.
    pub user_note: Option<String>,
    /// When the decision was taken, in milliseconds since the Unix epoch.
    pub decided_at_ms: i64,
}

/// A single-use approval token bound to one action and valid for 30
/// seconds. It is deliberately not `Clone`: consuming it moves it.
#[derive(Debug)]
pub struct HilApproval {
    action_id: ActionId,
    granted_at_ms: i64,
    expires_at_ms: i64,
    consumed: bool,
    /// The user's decision.
    pub decision: ApprovalDecision,
}

/// The state of an approval token.
pub struct ApprovalView {
    pub action_id: u128,
    pub granted_at_ms: int,
    pub expires_at_ms: int,
    pub consumed: bool,
    pub decision: ApprovalDecision,
}

impl View for HilApproval {
    type V = ApprovalView;

    closed spec fn view(&self) -> ApprovalView {
        ApprovalView {
            action_id: self.action_id.0,
            granted_at_ms: self.granted_at_ms as int,
            expires_at_ms: self.expires_at_ms as int,
            consumed: self.consumed,
            decision: self.decision,
        }
    }
}

/// The state of an approval for `id` with `decision`, granted at `t`.
pub open spec fn issued(id: ActionId, decision: ApprovalDecision, t: int) -> ApprovalView {
    ApprovalView {
        action_id: id.0,
        granted_at_ms: t,
        expires_at_ms: t + APPROVAL_EXPIRY_MS,
        consumed: false,
        decision,
    }
}

/// Whether an approval in state `a` is accepted for `expected` at `now`.
pub open spec fn consumable(a: ApprovalView, expected: ActionId, now: int) -> bool {
    a.action_id == expected.0 && now <= a.expires_at_ms && !a.consumed
}

/// Whether an approval in state `a` is valid at `now`: not consumed and
/// not past its expiry.
pub open spec fn valid_at(a: ApprovalView, now: int) -> bool {
    !a.consumed && now <= a.expires_at_ms
}

/// What consuming an approval in state `a` for `expected` at `now` gives:
/// its decision when it is accepted; else `ApprovalMismatch` naming both
/// actions, `ApprovalExpired`, or the already-consumed internal error, in
/// that order of checks.
pub open spec fn consume_outcome(
    a: ApprovalView,
    expected: ActionId,
    now: int,
    r: HilResult<ApprovalDecision>,
) -> bool {
    &&& (r is Ok) == consumable(a, expected, now)
    &&& (r is Ok ==> r == Ok::<ApprovalDecision, HilError>(a.decision))
    &&& (a.action_id != expected.0 ==> (match r {
        Err(HilError::ApprovalMismatch { expected: e, actual: x }) => e@ == uuid_text(expected.0) && x@
            == uuid_text(a.action_id),
        _ => false,
    }))
    &&& (a.action_id == expected.0 && now > a.expires_at_ms ==> (r matches Err(HilError::ApprovalExpired)))
    &&& (a.action_id == expected.0 && now <= a.expires_at_ms && a.consumed ==> (match r {
        Err(HilError::Internal(m)) => m@ == "Approval already consumed (this should be impossible)"@,
        _ => false,
    }))
}

/// Whether an approval state is one that `new_at` can produce, possibly
/// consumed since.
pub open spec fn approval_wf(a: ApprovalView) -> bool {
    in_clock_range(a.granted_at_ms) && a.expires_at_ms == a.granted_at_ms + APPROVAL_EXPIRY_MS
}

impl HilApproval {
    /// A fresh approval for `action_id`, granted now.
    pub fn new(action_id: ActionId, decision: ApprovalDecision) -> (r: Self)
        ensures
            r@ == issued(action_id, decision, r@.granted_at_ms),
            in_clock_range(r@.granted_at_ms),
    {
        let now = now_millis();
        Self::new_at(action_id, decision, now)
    }

    /// A fresh approval for `action_id`, granted at `now_ms`.
    pub fn new_at(action_id: ActionId, decision: ApprovalDecision, now_ms: i64) -> (r: Self)
        requires
            in_clock_range(now_ms as int),
        ensures
            r@ == issued(action_id, decision, now_ms as int),
    {
        HilApproval {
            action_id,
            granted_at_ms: now_ms,
            expires_at_ms: now_ms + APPROVAL_EXPIRY_MS,
            consumed: false,
            decision,
        }
    }

    /// Consume this approval for `expected` at the current time.
    /// The outcome is that of `consume_at` at the clock's reading, which
    /// is some time in the clock's range.
    pub fn consume(self, expected: &ActionId) -> (r: HilResult<ApprovalDecision>)
        ensures
            self@.action_id != expected.0 ==> r is Err,
            r is Ok ==> r == Ok::<ApprovalDecision, HilError>(self@.decision),
            exists|now: int| in_clock_range(now) && #[trigger] consume_outcome(self@, *expected, now, r),
    {
        let ghost a = self@;
        let now = now_millis();
        let r = self.consume_at(expected, now);
        assert(consume_outcome(a, *expected, now as int, r));
        r
    }

    /// Consume this approval for `expected` at time `now_ms`: it is refused
    /// for another action, after expiry, or if already consumed.
    pub fn consume_at(self, expected: &ActionId, now_ms: i64) -> (r: HilResult<ApprovalDecision>)
        ensures
            (r is Ok) == consumable(self@, *expected, now_ms as int),
            r is Ok ==> r == Ok::<ApprovalDecision, HilError>(self@.decision),
            self@.action_id != expected.0 ==> (match r {
                Err(HilError::ApprovalMismatch { expected: e, actual: a }) => e@ == uuid_text(
                    expected.0,
                ) && a@ == uuid_text(self@.action_id),
                _ => false,
            }),
            self@.action_id == expected.0 && now_ms > self@.expires_at_ms ==> r matches Err(
                HilError::ApprovalExpired,
            ),
            self@.action_id == expected.0 && now_ms <= self@.expires_at_ms && self@.consumed ==> (
            match r {
                Err(HilError::Internal(m)) => m@
                    == "Approval already consumed (this should be impossible)"@,
                _ => false,
            }),
    {
        if self.action_id != *expected {
            return Err(
                HilError::ApprovalMismatch {
                    expected: uuid_string(expected.0),
                    actual: uuid_string(self.action_id.0),
                },
            );
        }
        if now_ms > self.expires_at_ms {
            return Err(HilError::ApprovalExpired);
        }
        if self.consumed {
            return Err(
                HilError::Internal(
                    to_owned_string("Approval already consumed (this should be impossible)"),
                ),
            );
        }
        Ok(self.decision)
    }

    /// Whether this approval is still valid now: `is_valid_at` at the
    /// clock's reading, which is some time in the clock's range.
    pub fn is_valid(&self) -> (r: bool)
        ensures
            r ==> !self@.consumed,
            exists|now: int| in_clock_range(now) && r == #[trigger] valid_at(self@, now),
    {
        let now = now_millis();
        let r = self.is_valid_at(now);
        assert(r == valid_at(self@, now as int));
        r
    }

    /// Whether this approval is valid at `now_ms`: not consumed and not
    /// past its expiry.
    pub fn is_valid_at(&self, now_ms: i64) -> (r: bool)
        ensures
            r == (!self@.consumed && now_ms <= self@.expires_at_ms),
    {
        !self.consumed && now_ms <= self.expires_at_ms
    }

    /// The action this approval is bound to.
    pub fn action_id(&self) -> (r: &ActionId)
        ensures
            r.0 == self@.action_id,
    {
        &self.action_id
    }

    /// When this approval expires, in milliseconds since the Unix epoch.
    pub fn expires_at(&self) -> (r: i64)
        ensures
            r == self@.expires_at_ms,
    {
        self.expires_at_ms
    }

    /// Milliseconds left before expiry at `now_ms` (negative once expired).
    pub fn time_remaining_at(&self, now_ms: i64) -> (r: i64)
        requires
            approval_wf(self@),
            in_clock_range(now_ms as int),
        ensures
            r == self@.expires_at_ms - now_ms,
    {
        self.expires_at_ms - now_ms
    }

    /// Milliseconds left before expiry now: `time_remaining_at` at the
    /// clock's reading, which is some time in the clock's range.
    pub fn time_remaining(&self) -> (r: i64)
        requires
            approval_wf(self@),
        ensures
            r <= self@.expires_at_ms - (-9_000_000_000_000_000int),
            exists|now: int| #[trigger] in_clock_range(now) && r == self@.expires_at_ms - now,
    {
        let now = now_millis();
        let r = self.time_remaining_at(now);
        assert(in_clock_range(now as int));
        r
    }
}

/// An approval for `id` granted at `t` is accepted for `id` exactly until
/// thirty seconds after `t`, and never for another action.
pub proof fn lemma_approval_window(
    id: ActionId,
    other: ActionId,
    d: ApprovalDecision,
    t: int,
    now: int,
)
    ensures
        consumable(issued(id, d, t), id, now) <==> now <= t + 30_000,
        other != id ==> !consumable(issued(id, d, t), other, now),
{
}

/// An entry of the decision audit log.
#[derive(Debug, Clone)]
pub struct HilAuditEntry {
    /// When the decision was logged, in milliseconds since the Unix epoch.
    pub timestamp_ms: i64,
    /// The action's identifier text.
    pub action_id: String,
    /// Plain-language summary of what was confirmed.
    pub action_summary: String,
    /// Whether the user approved.
    pub approved: bool,
    /// How long the user took to decide, in milliseconds.
    pub decision_time_ms: u64,
    /// Optional user note.
    pub user_note: Option<String>,
}

/// The note given in test mode.
pub open spec fn test_mode_note() -> Seq<char> {
    "Auto-approved in test mode"@
}

/// The approval a gate in test mode gives without asking: approved, with
/// the test-mode note, granted at `now_ms`.
pub fn test_mode_approval(action_id: ActionId, now_ms: i64) -> (r: HilApproval)
    requires
        in_clock_range(now_ms as int),
    ensures
        r@.action_id == action_id.0,
        r@.granted_at_ms == now_ms,
        r@.expires_at_ms == now_ms + APPROVAL_EXPIRY_MS,
        !r@.consumed,
        r@.decision.approved,
        r@.decision.decided_at_ms == now_ms,
        r@.decision.user_note matches Some(n) && n@ == test_mode_note(),
{
    let decision = ApprovalDecision {
        approved: true,
        user_note: Some(to_owned_string("Auto-approved in test mode")),
        decided_at_ms: now_ms,
    };
    HilApproval::new_at(action_id, decision, now_ms)
}

/// The audit entry for a decision on `trigger`, asked at `asked_ms` and
/// logged at `now_ms`.
pub fn audit_entry(
    action_id: ActionId,
    trigger: &HilTriggerClass,
    decision: &ApprovalDecision,
    asked_ms: i64,
    now_ms: i64,
) -> (r: HilAuditEntry)
    requires
        in_clock_range(asked_ms as int),
        in_clock_range(now_ms as int),
    ensures
        r.timestamp_ms == now_ms,
        r.action_id@ == uuid_text(action_id.0),
        r.action_summary@ == summary_of(*trigger),
        r.approved == decision.approved,
        r.decision_time_ms == (now_ms - asked_ms) as u64,
        match (r.user_note, decision.user_note) {
            (Some(a), Some(b)) => a@ == b@,
            (None, None) => true,
            _ => false,
        },
{
    let elapsed: i64 = now_ms - asked_ms;
    HilAuditEntry {
        timestamp_ms: now_ms,
        action_id: uuid_string(action_id.0),
        action_summary: trigger.plain_language_summary(),
        approved: decision.approved,
        decision_time_ms: elapsed as u64,
        user_note: match &decision.user_note {
            Some(n) => Some(to_owned_string(n.as_str())),
            None => None,
        },
    }
}

/// The reason recorded when the user rejects without a note.
pub open spec fn no_reason() -> Seq<char> {
    "No reason provided"@
}

/// The outcome of a decision: an approval granted at `now_ms` when
/// approved, else `UserRejected` with the decision's note or
/// "No reason provided".
pub fn settle_decision(action_id: ActionId, decision: ApprovalDecision, now_ms: i64) -> (r: HilResult<
    HilApproval,
>)
    requires
        in_clock_range(now_ms as int),
    ensures
        decision.approved ==> (match r {
            Ok(a) => a@ == issued(action_id, decision, now_ms as int),
            Err(_) => false,
        }),
        !decision.approved ==> (match r {
            Err(HilError::UserRejected { reason }) => reason@ == match decision.user_note {
                Some(n) => n@,
                None => no_reason(),
            },
            _ => false,
        }),
{
    if decision.approved {
        Ok(HilApproval::new_at(action_id, decision, now_ms))
    } else {
        let reason = match &decision.user_note {
            Some(n) => to_owned_string(n.as_str()),
            None => to_owned_string("No reason provided"),
        };
        Err(HilError::UserRejected { reason })
    }
}

/// The log of all decisions taken at a gate, oldest first.
pub struct HilAuditLog {
    entries: Vec<HilAuditEntry>,
}

impl View for HilAuditLog {
    type V = Seq<HilAuditEntry>;

    closed spec fn view(&self) -> Seq<HilAuditEntry> {
        self.entries@
    }
}

impl HilAuditLog {
    /// An empty log.
    pub fn new() -> (r: Self)
        ensures
            r@.len() == 0,
    {
        HilAuditLog { entries: Vec::new() }
    }

    /// What follows the user's decision at a checkpoint: log the decision on
    /// `trigger` (asked at `asked_ms`, decided at `now_ms`), then settle
    /// it. An approval is a fresh approval for the action granted at
    /// `now_ms`; a rejection is `UserRejected` with the user's note or
    /// "No reason provided". Either way exactly one entry is appended, for
    /// this action and with this decision.
    pub fn decide(
        &mut self,
        action_id: ActionId,
        trigger: &HilTriggerClass,
        decision: ApprovalDecision,
        asked_ms: i64,
        now_ms: i64,
    ) -> (r: HilResult<HilApproval>)
        requires
            in_clock_range(asked_ms as int),
            in_clock_range(now_ms as int),
        ensures
            final(self)@.len() == old(self)@.len() + 1,
            final(self)@.drop_last() == old(self)@,
            final(self)@.last().approved == decision.approved,
            final(self)@.last().action_id@ == uuid_text(action_id.0),
            final(self)@.last().action_summary@ == summary_of(*trigger),
            final(self)@.last().timestamp_ms == now_ms,
            decision.approved ==> (match r {
                Ok(a) => a@ == issued(action_id, decision, now_ms as int),
                Err(_) => false,
            }),
            !decision.approved ==> (match r {
                Err(HilError::UserRejected { reason }) => reason@ == match decision.user_note {
                    Some(n) => n@,
                    None => no_reason(),
                },
                _ => false,
            }),
    {
        let entry = audit_entry(action_id, trigger, &decision, asked_ms, now_ms);
        self.record(entry);
        settle_decision(action_id, decision, now_ms)
    }

    /// Append an entry.
    pub fn record(&mut self, entry: HilAuditEntry)
        ensures
            final(self)@ == old(self)@.push(entry),
    {
        self.entries.push(entry);
    }

    /// The entries, oldest first.
    pub fn entries(&self) -> (r: &[HilAuditEntry])
        ensures
            r@ == self@,
    {
        self.entries.as_slice()
    }

    /// Remove every entry.
    pub fn clear(&mut self)
        ensures
            final(self)@.len() == 0,
    {
        self.entries.clear();
    }
}

} // verus!
