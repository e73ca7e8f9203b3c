use dictionarium_vilnensis::error::{Classified, CookieHeaderError, Element, Error};
use dictionarium_vilnensis::retry::{decide, Outcome, RetryAction, RetryPolicy, RetryState};

#[test]
fn classification_of_errors() {
    assert!(Error::Http.is_transient());
    assert!(Error::Isahc.is_transient());
    assert!(Error::Io.is_transient());
    assert!(!Error::String.is_transient());
    assert!(!Error::Cookie(CookieHeaderError::MissingCookie).is_transient());
    assert!(!Error::MissingElement(Element::Definition).is_transient());
    assert!(!Error::Malformed(Element::CountSummary).is_transient());
    assert_eq!(Error::Io.into_backoff_error(), Classified::Transient(Error::Io));
    assert_eq!(
        Error::MissingElement(Element::Definition).into_backoff_error(),
        Classified::Permanent(Error::MissingElement(Element::Definition))
    );
    assert_eq!(Error::from(Classified::Transient(Error::Http)), Error::Http);
    assert_eq!(Error::from(CookieHeaderError::MissingCookie), Error::Cookie(CookieHeaderError::MissingCookie));
}

#[test]
fn transient_failures_then_success() {
    let policy = RetryPolicy { max_retries: 3 };
    let mut state = RetryState::new();
    for k in 1..=3u32 {
        let a = decide(&policy, &mut state, Outcome::<u32>::Failed(Error::Isahc));
        assert_eq!(a, RetryAction::Wait { attempt: k });
    }
    assert_eq!(decide(&policy, &mut state, Outcome::Succeeded(42u32)), RetryAction::Deliver(42));
}

#[test]
fn permanent_failure_is_not_retried() {
    let policy = RetryPolicy { max_retries: 3 };
    let mut state = RetryState::new();
    let e = Error::MissingElement(Element::Definition);
    assert_eq!(decide(&policy, &mut state, Outcome::<u32>::Failed(e)), RetryAction::Fail(e));
    assert_eq!(state.retries, 0);
}

#[test]
fn retry_budget_is_capped() {
    let policy = RetryPolicy { max_retries: 2 };
    let mut state = RetryState::new();
    assert_eq!(decide(&policy, &mut state, Outcome::<u32>::Failed(Error::Io)), RetryAction::Wait { attempt: 1 });
    assert_eq!(decide(&policy, &mut state, Outcome::<u32>::Failed(Error::Io)), RetryAction::Wait { attempt: 2 });
    assert_eq!(decide(&policy, &mut state, Outcome::<u32>::Failed(Error::Io)), RetryAction::Fail(Error::Io));
}
