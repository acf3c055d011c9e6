//! The parts of the configuration that decide how the proxy runs.
use vstd::prelude::*;
use vstd::string::*;

verus! {

/// How the proxy treats the hash power it relays.
#[derive(Clone, Copy, Debug, PartialEq, Eq, Structural)]
pub enum ProxyMode {
    /// Relay only.
    PureProxy,
    /// Divert a fraction of jobs to the fee pool.
    FeeInjection,
    /// Every share credits one wallet.
    UnifiedWallet,
}

impl ProxyMode {
    /// The mode selected by the `share` option: 0 and 1 name the first
    /// two modes, any other value the unified wallet.
    pub fn from_share(share: u32) -> (m: ProxyMode)
        ensures
            share == 0 ==> m == ProxyMode::PureProxy,
            share == 1 ==> m == ProxyMode::FeeInjection,
            share > 1 ==> m == ProxyMode::UnifiedWallet,
    {
        if share == 0 {
            ProxyMode::PureProxy
        } else if share == 1 {
            ProxyMode::FeeInjection
        } else {
            ProxyMode::UnifiedWallet
        }
    }
}

/// How a pool is reached.
#[derive(Clone, Copy, Debug, PartialEq, Eq, Structural)]
pub enum StreamKind {
    Tcp,
    Ssl,
}

#[derive(Clone, Copy, Debug, PartialEq, Eq, Structural)]
pub enum AddressError {
    /// The list of pool addresses is empty.
    NoAddress,
    /// An entry has nothing before its scheme tag.
    EmptyAddress,
}

pub open spec fn ssl_tag() -> Seq<char> {
    seq!['+', 's', 's', 'l']
}

pub open spec fn ends_with(s: Seq<char>, t: Seq<char>) -> bool {
    t.len() <= s.len() && s.subrange(s.len() - t.len(), s.len() as int) == t
}

/// An entry `host:port` is reached over TCP, `host:port+ssl` over TLS.
pub open spec fn endpoint_spec(entry: Seq<char>) -> Result<(Seq<char>, StreamKind), AddressError> {
    let (addr, kind) = if ends_with(entry, ssl_tag()) {
        (entry.subrange(0, entry.len() - ssl_tag().len()), StreamKind::Ssl)
    } else {
        (entry, StreamKind::Tcp)
    };
    if addr.len() == 0 {
        Err(AddressError::EmptyAddress)
    } else {
        Ok((addr, kind))
    }
}

/// Relies on str::strip_suffix: `Some(rest)` exactly when `s` ends with
/// `suffix`, and then `s` is `rest` followed by `suffix`.
#[verifier::external_body]
fn strip_suffix<'a>(s: &'a str, suffix: &str) -> (r: Option<&'a str>)
    ensures
        match r {
            Some(rest) => s@ == rest@ + suffix@,
            None => !ends_with(s@, suffix@),
        },
{
    s.strip_suffix(suffix)
}

/// Splits one pool entry into its address and how it is reached.
pub fn parse_endpoint(entry: &str) -> (r: Result<(String, StreamKind), AddressError>)
    ensures
        match r {
            Ok((addr, kind)) => endpoint_spec(entry@) == Ok::<_, AddressError>((addr@, kind)),
            Err(e) => endpoint_spec(entry@) == Err::<(Seq<char>, StreamKind), _>(e),
        },
{
    proof {
        reveal_strlit("+ssl");
        assert("+ssl"@ =~= ssl_tag());
    }
    let (addr, kind) = match strip_suffix(entry, "+ssl") {
        Some(rest) => {
            proof {
                assert(entry@.subrange(entry@.len() - 4, entry@.len() as int) =~= ssl_tag());
                assert(rest@ =~= entry@.subrange(0, entry@.len() - 4));
            }
            (rest, StreamKind::Ssl)
        },
        None => (entry, StreamKind::Tcp),
    };
    if addr.is_empty() {
        Err(AddressError::EmptyAddress)
    } else {
        Ok((addr.to_owned(), kind))
    }
}

/// How the pools of an ordered address list are reached: by the first
/// entry, which is tried first.
pub fn pool_stream_kind(entries: &Vec<String>) -> (r: Result<StreamKind, AddressError>)
    ensures
        entries@.len() == 0 ==> r == Err::<StreamKind, _>(AddressError::NoAddress),
        entries@.len() > 0 ==> match endpoint_spec(entries@[0]@) {
            Ok((_, kind)) => r == Ok::<_, AddressError>(kind),
            Err(e) => r == Err::<StreamKind, _>(e),
        },
{
    if entries.len() == 0 {
        return Err(AddressError::NoAddress);
    }
    match parse_endpoint(entries[0].as_str()) {
        Ok((_, kind)) => Ok(kind),
        Err(e) => Err(e),
    }
}

} // verus!
