use vstd::prelude::*;
use crate::error::CryptoError;

verus! {

/// The Bitcoin networks that the signer can work on.
#[derive(Clone, Copy, Debug, PartialEq, Eq, Structural)]
pub enum Network {
    Bitcoin,
    Testnet,
    Regtest,
}

/// The network that a Ruby-side network code selects, if any:
/// 1 is mainnet, 2 is testnet, 3 is regtest.
pub open spec fn network_of_code(code: int) -> Option<Network> {
    if code == 1 {
        Some(Network::Bitcoin)
    } else if code == 2 {
        Some(Network::Testnet)
    } else if code == 3 {
        Some(Network::Regtest)
    } else {
        None
    }
}

/// Decodes a Ruby-side network code; any other code than 1, 2 or 3 is
/// refused with `UnknownNetwork` carrying the code.
pub fn to_network(code: i64) -> (r: Result<Network, CryptoError>)
    ensures
        code == 1 ==> r == Ok::<Network, CryptoError>(Network::Bitcoin),
        code == 2 ==> r == Ok::<Network, CryptoError>(Network::Testnet),
        code == 3 ==> r == Ok::<Network, CryptoError>(Network::Regtest),
        code != 1 && code != 2 && code != 3 ==> r == Err::<Network, CryptoError>(
            CryptoError::UnknownNetwork(code),
        ),
        network_of_code(code as int) matches Some(n) ==> r == Ok::<Network, CryptoError>(n),
        network_of_code(code as int) is None ==> r == Err::<Network, CryptoError>(
            CryptoError::UnknownNetwork(code),
        ),
{
    match code {
        1 => Ok(Network::Bitcoin),
        2 => Ok(Network::Testnet),
        3 => Ok(Network::Regtest),
        other => Err(CryptoError::UnknownNetwork(other)),
    }
}

/// Only the codes 1, 2 and 3 select a network; every other code, whatever
/// its sign or size, selects none.
pub proof fn only_three_codes_select_a_network(code: int)
    ensures
        network_of_code(code) is Some <==> 1 <= code <= 3,
{
}

/// Each network is selected by exactly one code: two codes that select the
/// same network are the same code.
pub proof fn one_code_per_network(a: int, b: int)
    requires
        network_of_code(a) is Some,
        network_of_code(a) == network_of_code(b),
    ensures
        a == b,
{
}

/// The three networks are selected by three different codes, in the order
/// mainnet, testnet, regtest.
pub proof fn codes_of_the_networks()
    ensures
        network_of_code(1) == Some(Network::Bitcoin),
        network_of_code(2) == Some(Network::Testnet),
        network_of_code(3) == Some(Network::Regtest),
{
}

} // verus!
