//! Sign-in of a user to Xbox services.

use vstd::prelude::*;
use vstd::string::StringExecFns;

use crate::soap::BodyContent;
use crate::time::UtcTime;

verus! {

/// A claim about a user.
#[derive(Clone, Debug)]
pub struct XuiClaim {
    /// The hash that names the user in an authorization header.
    pub uhs: String,
}

/// What a token says about its user.
#[derive(Clone, Debug)]
pub struct DisplayClaims {
    pub xui: Vec<XuiClaim>,
}

/// A token for one relying party.
#[derive(Clone, Debug)]
pub struct XstsResponse {
    /// When the token expires.
    pub not_after: UtcTime,
    pub token: String,
    pub display_claims: DisplayClaims,
}

/// Why a user could not be signed in.
#[derive(Clone, Debug)]
pub enum XboxAuthError {
    /// The exchange of the user's token failed.
    ExchangeUserToken(String),
    /// The exchange was answered with a fault.
    TokenExchangeFault,
    /// The exchange was answered without a token.
    EmptyTokenCollection,
    /// The exchange was answered with a token of another kind.
    UnsupportedTokenType,
    /// Xbox services did not take the token.
    XboxUserAuth(String),
    /// No token could be had for the relying party.
    XstsRequest(String),
}

impl XboxAuthError {
    /// The error in words.
    pub fn message(&self) -> (out: String)
        ensures
            out@ == match *self {
                XboxAuthError::ExchangeUserToken(e) => "Failed to exchange MS user token: "@ + e@,
                XboxAuthError::TokenExchangeFault => "MS user token exchange returned a fault"@,
                XboxAuthError::EmptyTokenCollection =>
                    "Expected RequestSecurityTokenResponse but token collection was empty"@,
                XboxAuthError::UnsupportedTokenType =>
                    "Unsupported token type, expected Compact token"@,
                XboxAuthError::XboxUserAuth(e) => "Failed to authenticate Xbox user: "@ + e@,
                XboxAuthError::XstsRequest(e) => "Failed to obtain XSTS token: "@ + e@,
            },
    {
        let (start, rest) = match self {
            XboxAuthError::ExchangeUserToken(e) => ("Failed to exchange MS user token: ", e),
            XboxAuthError::TokenExchangeFault => {
                return String::from_str("MS user token exchange returned a fault");
            },
            XboxAuthError::EmptyTokenCollection => {
                return String::from_str(
                    "Expected RequestSecurityTokenResponse but token collection was empty",
                );
            },
            XboxAuthError::UnsupportedTokenType => {
                return String::from_str("Unsupported token type, expected Compact token");
            },
            XboxAuthError::XboxUserAuth(e) => ("Failed to authenticate Xbox user: ", e),
            XboxAuthError::XstsRequest(e) => ("Failed to obtain XSTS token: ", e),
        };
        let mut out = String::from_str(start);
        out.append(rest);
        out
    }
}

/// A token of one of the two kinds that the token service issues.
#[derive(Clone, Debug)]
pub enum Token<L, C> {
    Legacy(L),
    Compact(C),
}

/// How the exchange of a user's token is answered. `R` is a token response.
pub enum ExchangeUserTokenOutcome<R> {
    Fault,
    Issued(BodyContent<R>),
}

/// A policy by which the token service issues a token.
#[derive(Clone, Copy, Debug, PartialEq, Eq, Structural)]
pub enum PolicyReference {
    /// `MBI_SSL`.
    MbiSsl,
}

/// What the exchange of a user's token asks for, beside the tokens of user and device.
pub struct ExchangeRequest {
    pub username: String,
    /// Whether the user may be asked anything.
    pub mode: String,
    /// The application that the token is for.
    pub application: String,
    /// The service that the token is for.
    pub relying_party: String,
    /// The policy for that service, if one is asked for.
    pub policy: Option<PolicyReference>,
}

/// A token for Xbox services is asked for, without any question to the user.
pub open spec fn is_exchange_request(request: ExchangeRequest) -> bool {
    &&& request.username@ == "USERNAME"@
    &&& request.mode@ == "Silent"@
    &&& request.application@ == "{d6d5a677-0872-4ab0-9442-bb792fce85c5}"@
    &&& request.relying_party@ == "user.auth.xboxlive.com"@
    &&& request.policy == Some(PolicyReference::MbiSsl)
}

/// What the exchange of a user's token asks for: a token for Xbox services, without any question to
/// the user.
pub fn exchange_request() -> (out: ExchangeRequest)
    ensures
        is_exchange_request(out),
{
    ExchangeRequest {
        username: String::from_str("USERNAME"),
        mode: String::from_str("Silent"),
        application: String::from_str("{d6d5a677-0872-4ab0-9442-bb792fce85c5}"),
        relying_party: String::from_str("user.auth.xboxlive.com"),
        policy: Some(PolicyReference::MbiSsl),
    }
}

/// The compact token in the answer to an exchange. Of several tokens the first one counts.
pub open spec fn compact_token<L, C>(
    answer: Result<ExchangeUserTokenOutcome<Token<L, C>>, String>,
) -> Result<C, XboxAuthError> {
    match answer {
        Err(e) => Err(XboxAuthError::ExchangeUserToken(e)),
        Ok(ExchangeUserTokenOutcome::Fault) => Err(XboxAuthError::TokenExchangeFault),
        Ok(ExchangeUserTokenOutcome::Issued(body)) => match body {
            BodyContent::RequestSecurityTokenResponseCollection(tokens) => if tokens@.len() == 0 {
                Err(XboxAuthError::EmptyTokenCollection)
            } else {
                compact(tokens@[0])
            },
            BodyContent::RequestSecurityTokenResponse(token) => compact(*token),
            BodyContent::Other => Err(XboxAuthError::UnsupportedTokenType),
        },
    }
}

/// A token, if it is compact.
pub open spec fn compact<L, C>(token: Token<L, C>) -> Result<C, XboxAuthError> {
    match token {
        Token::Compact(token) => Ok(token),
        Token::Legacy(_) => Err(XboxAuthError::UnsupportedTokenType),
    }
}

/// Takes the compact token out of the answer to an exchange.
pub fn user_token<L, C>(answer: Result<ExchangeUserTokenOutcome<Token<L, C>>, String>) -> (r: Result<
    C,
    XboxAuthError,
>)
    ensures
        r == compact_token(answer),
{
    let token = match answer {
        Err(e) => {
            return Err(XboxAuthError::ExchangeUserToken(e));
        },
        Ok(ExchangeUserTokenOutcome::Fault) => {
            return Err(XboxAuthError::TokenExchangeFault);
        },
        Ok(ExchangeUserTokenOutcome::Issued(body)) => match body {
            BodyContent::RequestSecurityTokenResponseCollection(tokens) => {
                let mut tokens = tokens;
                if tokens.len() == 0 {
                    return Err(XboxAuthError::EmptyTokenCollection);
                }
                tokens.remove(0)
            },
            BodyContent::RequestSecurityTokenResponse(token) => *token,
            BodyContent::Other => {
                return Err(XboxAuthError::UnsupportedTokenType);
            },
        },
    };
    match token {
        Token::Compact(token) => Ok(token),
        Token::Legacy(_) => Err(XboxAuthError::UnsupportedTokenType),
    }
}

/// What has happened while a user is signed in. `A` is what Xbox services make of the user's token,
/// and `X` the token for the relying party.
pub enum SignInEvent<L, C, A, X> {
    Begun,
    Exchanged(Result<ExchangeUserTokenOutcome<Token<L, C>>, String>),
    Authenticated(Result<A, String>),
    TokenRequested(Result<X, String>),
}

/// What to do to sign a user in.
pub enum SignInAction<C, A, X> {
    /// Exchange the user's token.
    Exchange(ExchangeRequest),
    /// Hand the exchanged token to Xbox services.
    Authenticate(C),
    /// Ask for a token for the relying party.
    RequestToken(A),
    /// The sign-in is over.
    Finish(Result<X, XboxAuthError>),
}

/// Decides what follows on an event while a user is signed in.
pub fn next_sign_in_action<L, C, A, X>(event: SignInEvent<L, C, A, X>) -> (action: SignInAction<
    C,
    A,
    X,
>)
    ensures
        match event {
            SignInEvent::Begun => action matches SignInAction::Exchange(request)
                && is_exchange_request(request),
            SignInEvent::Exchanged(answer) => action == match compact_token(answer) {
                Ok(token) => SignInAction::<C, A, X>::Authenticate(token),
                Err(e) => SignInAction::<C, A, X>::Finish(Err(e)),
            },
            SignInEvent::Authenticated(answer) => action == match answer {
                Ok(user) => SignInAction::<C, A, X>::RequestToken(user),
                Err(e) => SignInAction::<C, A, X>::Finish(Err(XboxAuthError::XboxUserAuth(e))),
            },
            SignInEvent::TokenRequested(answer) => action == match answer {
                Ok(token) => SignInAction::<C, A, X>::Finish(Ok(token)),
                Err(e) => SignInAction::<C, A, X>::Finish(Err(XboxAuthError::XstsRequest(e))),
            },
        },
{
    match event {
        SignInEvent::Begun => SignInAction::Exchange(exchange_request()),
        SignInEvent::Exchanged(answer) => match user_token(answer) {
            Ok(token) => SignInAction::Authenticate(token),
            Err(e) => SignInAction::Finish(Err(e)),
        },
        SignInEvent::Authenticated(answer) => match answer {
            Ok(user) => SignInAction::RequestToken(user),
            Err(e) => SignInAction::Finish(Err(XboxAuthError::XboxUserAuth(e))),
        },
        SignInEvent::TokenRequested(answer) => match answer {
            Ok(token) => SignInAction::Finish(Ok(token)),
            Err(e) => SignInAction::Finish(Err(XboxAuthError::XstsRequest(e))),
        },
    }
}

/// Xbox services only ever see a compact token that the exchange issued.
pub proof fn only_compact_tokens_are_handed_on<L, C>(
    answer: Result<ExchangeUserTokenOutcome<Token<L, C>>, String>,
    token: C,
)
    requires
        compact_token(answer) == Ok::<C, XboxAuthError>(token),
    ensures
        answer matches Ok(ExchangeUserTokenOutcome::Issued(body)) && match body {
            BodyContent::RequestSecurityTokenResponseCollection(tokens) => tokens@.len() > 0
                && tokens@[0] == Token::<L, C>::Compact(token),
            BodyContent::RequestSecurityTokenResponse(only) => *only == Token::<L, C>::Compact(
                token,
            ),
            BodyContent::Other => false,
        },
{
}

/// A compact token is taken whenever the exchange issues one: alone, or as the first of a
/// collection, however many there are. Only a collection without any token is called empty, and a
/// token of another kind, or another answer, is refused as such.
pub proof fn an_issued_compact_token_is_taken<L, C>(
    answer: Result<ExchangeUserTokenOutcome<Token<L, C>>, String>,
    r: Result<C, XboxAuthError>,
)
    requires
        call_ensures(user_token::<L, C>, (answer,), r),
    ensures
        answer matches Ok(
            ExchangeUserTokenOutcome::Issued(
                BodyContent::RequestSecurityTokenResponseCollection(tokens),
            ),
        ) ==> if tokens@.len() == 0 {
            r is Err && r->Err_0 is EmptyTokenCollection
        } else {
            match tokens@[0] {
                Token::Compact(token) => r is Ok && r->Ok_0 == token,
                Token::Legacy(_) => r is Err && r->Err_0 is UnsupportedTokenType,
            }
        },
        answer matches Ok(
            ExchangeUserTokenOutcome::Issued(BodyContent::RequestSecurityTokenResponse(only)),
        ) ==> match *only {
            Token::Compact(token) => r is Ok && r->Ok_0 == token,
            Token::Legacy(_) => r is Err && r->Err_0 is UnsupportedTokenType,
        },
        answer matches Ok(ExchangeUserTokenOutcome::Issued(BodyContent::Other)) ==> r is Err
            && r->Err_0 is UnsupportedTokenType,
        answer matches Ok(ExchangeUserTokenOutcome::Fault) ==> r is Err
            && r->Err_0 is TokenExchangeFault,
        answer matches Err(e) ==> r is Err && r->Err_0 is ExchangeUserToken
            && r->Err_0->ExchangeUserToken_0 == e,
{
}

/// Each answer during a sign-in leads one step on with just what was answered, or ends the sign-in
/// with the error that says which step failed. The end of all steps is the token for the relying
/// party.
pub proof fn a_sign_in_hands_on_what_was_answered<L, C, A, X>(
    event: SignInEvent<L, C, A, X>,
    action: SignInAction<C, A, X>,
)
    requires
        call_ensures(next_sign_in_action::<L, C, A, X>, (event,), action),
    ensures
        action is Exchange <==> event is Begun,
        action matches SignInAction::Authenticate(token) ==> event matches SignInEvent::Exchanged(
            answer,
        ) && (answer matches Ok(ExchangeUserTokenOutcome::Issued(body)) && match body {
            BodyContent::RequestSecurityTokenResponseCollection(tokens) => tokens@.len() > 0
                && tokens@[0] == Token::<L, C>::Compact(token),
            BodyContent::RequestSecurityTokenResponse(only) => *only == Token::<L, C>::Compact(
                token,
            ),
            BodyContent::Other => false,
        }),
        event matches SignInEvent::Exchanged(
            Ok(
                ExchangeUserTokenOutcome::Issued(
                    BodyContent::RequestSecurityTokenResponseCollection(tokens),
                ),
            ),
        ) ==> tokens@.len() > 0 ==> tokens@[0] is Compact ==> action is Authenticate,
        event matches SignInEvent::Exchanged(
            Ok(ExchangeUserTokenOutcome::Issued(BodyContent::RequestSecurityTokenResponse(only))),
        ) ==> *only is Compact ==> action is Authenticate,
        event matches SignInEvent::Exchanged(_) ==> action is Authenticate || (action matches
            SignInAction::Finish(Err(e)) && !(e is XboxUserAuth) && !(e is XstsRequest)),
        event matches SignInEvent::Authenticated(answer) ==> match answer {
            Ok(user) => action matches SignInAction::RequestToken(a) && a == user,
            Err(e) => action matches SignInAction::Finish(Err(XboxAuthError::XboxUserAuth(w))) && w
                == e,
        },
        event matches SignInEvent::TokenRequested(answer) ==> match answer {
            Ok(token) => action matches SignInAction::Finish(Ok(x)) && x == token,
            Err(e) => action matches SignInAction::Finish(Err(XboxAuthError::XstsRequest(w))) && w
                == e,
        },
{
}

/// A sign-in begins with the request for one token of the user, for Xbox services and for this
/// application, that asks the user nothing.
pub proof fn a_sign_in_begins_with_a_silent_exchange<L, C, A, X>(action: SignInAction<C, A, X>)
    requires
        call_ensures(
            next_sign_in_action::<L, C, A, X>,
            (SignInEvent::<L, C, A, X>::Begun,),
            action,
        ),
    ensures
        action matches SignInAction::Exchange(request) && request.username@ == "USERNAME"@
            && request.mode@ == "Silent"@ && request.application@
            == "{d6d5a677-0872-4ab0-9442-bb792fce85c5}"@ && request.relying_party@
            == "user.auth.xboxlive.com"@ && request.policy == Some(PolicyReference::MbiSsl),
{
}

/// An error that has a cause ends its words with the cause.
pub proof fn a_sign_in_error_ends_with_its_cause(error: XboxAuthError, words: String)
    requires
        call_ensures(XboxAuthError::message, (&error,), words),
    ensures
        match error {
            XboxAuthError::ExchangeUserToken(e) => words@ == "Failed to exchange MS user token: "@
                + e@,
            XboxAuthError::XboxUserAuth(e) => words@ == "Failed to authenticate Xbox user: "@ + e@,
            XboxAuthError::XstsRequest(e) => words@ == "Failed to obtain XSTS token: "@ + e@,
            XboxAuthError::TokenExchangeFault => words@
                == "MS user token exchange returned a fault"@,
            XboxAuthError::EmptyTokenCollection => words@
                == "Expected RequestSecurityTokenResponse but token collection was empty"@,
            XboxAuthError::UnsupportedTokenType => words@
                == "Unsupported token type, expected Compact token"@,
        },
{
}

} // verus!
