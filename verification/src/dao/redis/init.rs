//! The address under which the ephemeral tier is reached.
use vstd::prelude::*;
use vstd::string::*;

verus! {

/// The longest address, and the longest password, that is given to the URL
/// parser, in characters.
pub const MAX_ADDRESS: usize = 65535;

/// Why an address could not be given a password.
#[derive(Clone, Copy, Debug, PartialEq, Eq, Structural)]
pub enum AddressFault {
    /// The address or the password is longer than [`MAX_ADDRESS`] characters.
    TooLong,
    /// The address is no URL.
    Invalid,
    /// The URL is of a kind that carries no password.
    NoPassword,
}

/// What the `url` crate makes of the URL `url` once `password` is set as its
/// password: the text of the URL with the password in it, or the reason why
/// there is none.
pub uninterp spec fn url_with_password(url: Seq<char>, password: Seq<char>) -> Result<
    Seq<char>,
    AddressFault,
>;

/// Parses `url` with `url::Url::parse`, sets `password` with
/// `url::Url::set_password`, and writes the URL out again.
///
/// Not proved: that the result is the one named [`url_with_password`], which
/// says no more than that equal arguments give equal results; and that it is
/// never [`AddressFault::TooLong`]. The parser fails with
/// [`AddressFault::Invalid`], the setter with [`AddressFault::NoPassword`].
/// The bounds keep the written URL far below the 4 GiB at which the setter
/// gives up.
#[verifier::external_body]
fn set_password(url: &str, password: &str) -> (result: Result<String, AddressFault>)
    requires
        url@.len() <= MAX_ADDRESS,
        password@.len() <= MAX_ADDRESS,
    ensures
        match result {
            Ok(text) => url_with_password(url@, password@) == Ok::<Seq<char>, AddressFault>(text@),
            Err(fault) => url_with_password(url@, password@) == Err::<Seq<char>, AddressFault>(
                fault,
            ) && fault != AddressFault::TooLong,
        },
{
    match url::Url::parse(url) {
        Ok(mut parsed) => match parsed.set_password(Some(password)) {
            Ok(()) => Ok(String::from(parsed)),
            Err(()) => Err(AddressFault::NoPassword),
        },
        Err(_) => Err(AddressFault::Invalid),
    }
}

/// What [`connection_url`] returns.
pub open spec fn spec_connection_url(url: Seq<char>, password: Seq<char>) -> Result<
    Seq<char>,
    AddressFault,
> {
    if password.len() == 0 {
        Ok(url)
    } else if url.len() > MAX_ADDRESS || password.len() > MAX_ADDRESS {
        Err(AddressFault::TooLong)
    } else {
        url_with_password(url, password)
    }
}

/// The address of the ephemeral tier with the password in it: the address as
/// it is where the password is empty, else the address as a URL that carries
/// the password.
pub fn connection_url(redis_url: &str, redis_password: &str) -> (result: Result<
    String,
    AddressFault,
>)
    ensures
        match result {
            Ok(text) => spec_connection_url(redis_url@, redis_password@) == Ok::<
                Seq<char>,
                AddressFault,
            >(text@),
            Err(fault) => spec_connection_url(redis_url@, redis_password@) == Err::<
                Seq<char>,
                AddressFault,
            >(fault),
        },
{
    if redis_password.is_empty() {
        Ok(String::from_str(redis_url))
    } else if redis_url.unicode_len() > MAX_ADDRESS || redis_password.unicode_len() > MAX_ADDRESS {
        Err(AddressFault::TooLong)
    } else {
        set_password(redis_url, redis_password)
    }
}

} // verus!
