//! The airdrop registry: the owner registers, for each airdrop token, the
//! airdrop contract that hands it out; anyone can then have the vault claim a
//! registered airdrop.

use vstd::prelude::*;

verus! {

/// Why a registry operation is rejected.
#[derive(Clone, Debug, PartialEq, Eq)]
pub enum RegistryError {
    /// "unauthorized"
    Unauthorized,
    /// "no info registered for this airdrop token"
    NoInfoRegistered,
    /// "There is a token info with this {airdrop_token}"
    AlreadyRegistered { airdrop_token: String },
    /// "There is no token info with this {airdrop_token}"
    NotRegistered { airdrop_token: String },
}

/// The registry's configuration, with the airdrop tokens registered in the
/// order they were added.
#[derive(Clone, Debug, PartialEq, Eq)]
pub struct Config {
    pub owner: String,
    pub vault_contract: String,
    pub airdrop_tokens: Vec<String>,
}

/// How an airdrop contract is claimed from.
#[derive(Clone, Copy, Debug, PartialEq, Eq)]
pub enum ClaimType {
    /// With a merkle proof of a stage's amount.
    Generic,
}

/// A registered airdrop: the contract that hands out the token.
#[derive(Clone, Debug, PartialEq, Eq)]
pub struct AirdropInfo {
    pub airdrop_contract: String,
    pub claim_type: ClaimType,
}

/// The vault's claim of an airdrop.
#[derive(Clone, Debug, PartialEq, Eq)]
pub struct ClaimAirdrop {
    /// The vault that claims.
    pub vault: String,
    pub airdrop_token_contract: String,
    pub airdrop_contract: String,
    /// The claim sent to the airdrop contract: the stage, the amount and the
    /// merkle proof.
    pub stage: u8,
    pub amount: u128,
    pub proof: Vec<String>,
}

/// The configuration to store at instantiation; the sender becomes the owner.
pub fn instantiate(sender: String, vault_contract: String) -> (r: Config)
    ensures
        r.owner == sender,
        r.vault_contract == vault_contract,
        r.airdrop_tokens@.len() == 0,
{
    Config { owner: sender, vault_contract, airdrop_tokens: Vec::new() }
}

/// Has the vault claim `amount` of the airdrop of `airdrop_token` at `stage`
/// with `proof`; `info` is what is registered for the token, if anything.
pub fn execute_fabricate_claim(
    cfg: &Config,
    airdrop_token: String,
    info: Option<AirdropInfo>,
    stage: u8,
    amount: u128,
    proof: Vec<String>,
) -> (r: Result<ClaimAirdrop, RegistryError>)
    ensures
        info is None ==> r == Err::<ClaimAirdrop, RegistryError>(RegistryError::NoInfoRegistered),
        info is Some ==> (r matches Ok(c) && c == ClaimAirdrop {
            vault: cfg.vault_contract,
            airdrop_token_contract: airdrop_token,
            airdrop_contract: info->Some_0.airdrop_contract,
            stage,
            amount,
            proof: c.proof,
        } && c.proof@ == proof@),
{
    let info = match info {
        Some(i) => i,
        None => return Err(RegistryError::NoInfoRegistered),
    };
    Ok(
        ClaimAirdrop {
            vault: cfg.vault_contract.clone(),
            airdrop_token_contract: airdrop_token,
            airdrop_contract: info.airdrop_contract,
            stage,
            amount,
            proof,
        },
    )
}

/// The owner changes the owner or the vault.
pub fn execute_update_config(
    cfg: Config,
    sender: &String,
    owner: Option<String>,
    vault_contract: Option<String>,
) -> (r: Result<Config, RegistryError>)
    ensures
        sender@ != cfg.owner@ ==> r == Err::<Config, RegistryError>(RegistryError::Unauthorized),
        sender@ == cfg.owner@ ==> (r matches Ok(c) && c.owner == (match owner {
            Some(o) => o,
            None => cfg.owner,
        }) && c.vault_contract == (match vault_contract {
            Some(v) => v,
            None => cfg.vault_contract,
        }) && c.airdrop_tokens@ == cfg.airdrop_tokens@),
{
    if *sender != cfg.owner {
        return Err(RegistryError::Unauthorized);
    }
    let mut cfg = cfg;
    if let Some(o) = owner {
        cfg.owner = o;
    }
    if let Some(v) = vault_contract {
        cfg.vault_contract = v;
    }
    Ok(cfg)
}

/// The owner registers the airdrop of `airdrop_token` (`registered` says
/// whether it already is): the token is appended to the list. The info to
/// store is the caller's.
pub fn execute_add_airdrop(cfg: Config, sender: &String, airdrop_token: String, registered: bool) -> (r:
    Result<Config, RegistryError>)
    ensures
        sender@ != cfg.owner@ ==> r == Err::<Config, RegistryError>(RegistryError::Unauthorized),
        sender@ == cfg.owner@ && registered ==> r == Err::<Config, RegistryError>(
            RegistryError::AlreadyRegistered { airdrop_token },
        ),
        sender@ == cfg.owner@ && !registered ==> (r matches Ok(c) && c.owner == cfg.owner
            && c.vault_contract == cfg.vault_contract && c.airdrop_tokens@ == cfg.airdrop_tokens@.push(
            airdrop_token,
        )),
{
    if *sender != cfg.owner {
        return Err(RegistryError::Unauthorized);
    }
    if registered {
        return Err(RegistryError::AlreadyRegistered { airdrop_token });
    }
    let mut cfg = cfg;
    cfg.airdrop_tokens.push(airdrop_token);
    Ok(cfg)
}

/// The owner replaces the registered info of `airdrop_token` (`registered`
/// says whether there is one). The info to store is the caller's.
pub fn execute_update_airdrop(cfg: &Config, sender: &String, airdrop_token: String, registered: bool) -> (r:
    Result<(), RegistryError>)
    ensures
        sender@ != cfg.owner@ ==> r == Err::<(), RegistryError>(RegistryError::Unauthorized),
        sender@ == cfg.owner@ ==> r == if registered {
            Ok::<(), RegistryError>(())
        } else {
            Err::<(), RegistryError>(RegistryError::NotRegistered { airdrop_token })
        },
{
    if *sender != cfg.owner {
        return Err(RegistryError::Unauthorized);
    }
    if !registered {
        return Err(RegistryError::NotRegistered { airdrop_token });
    }
    Ok(())
}

/// The tokens of a list other than `token`, in order.
pub open spec fn without(tokens: Seq<String>, token: Seq<char>) -> Seq<String>
    decreases tokens.len(),
{
    if tokens.len() == 0 {
        Seq::empty()
    } else {
        let rest = without(tokens.drop_last(), token);
        if tokens.last()@ == token {
            rest
        } else {
            rest.push(tokens.last())
        }
    }
}

/// The owner unregisters the airdrop of `airdrop_token` (`registered` says
/// whether it is registered): the token leaves the list.
pub fn execute_remove_airdrop(cfg: Config, sender: &String, airdrop_token: String, registered: bool) -> (r:
    Result<Config, RegistryError>)
    ensures
        sender@ != cfg.owner@ ==> r == Err::<Config, RegistryError>(RegistryError::Unauthorized),
        sender@ == cfg.owner@ && !registered ==> r == Err::<Config, RegistryError>(
            RegistryError::NotRegistered { airdrop_token },
        ),
        sender@ == cfg.owner@ && registered ==> (r matches Ok(c) && c.owner == cfg.owner
            && c.vault_contract == cfg.vault_contract && c.airdrop_tokens@ == without(
            cfg.airdrop_tokens@,
            airdrop_token@,
        )),
{
    if *sender != cfg.owner {
        return Err(RegistryError::Unauthorized);
    }
    if !registered {
        return Err(RegistryError::NotRegistered { airdrop_token });
    }
    let ghost old_tokens = cfg.airdrop_tokens@;
    let mut kept: Vec<String> = Vec::new();
    let n = cfg.airdrop_tokens.len();
    let mut i: usize = 0;
    proof {
        assert(old_tokens.take(0) =~= Seq::<String>::empty());
    }
    while i < n
        invariant
            n == old_tokens.len(),
            old_tokens == cfg.airdrop_tokens@,
            0 <= i <= n,
            kept@ == without(old_tokens.take(i as int), airdrop_token@),
        decreases n - i,
    {
        proof {
            assert(old_tokens.take(i + 1).drop_last() =~= old_tokens.take(i as int));
        }
        if !(cfg.airdrop_tokens[i] == airdrop_token) {
            kept.push(cfg.airdrop_tokens[i].clone());
        }
        i = i + 1;
    }
    proof {
        assert(old_tokens.take(n as int) =~= old_tokens);
    }
    let mut cfg = cfg;
    cfg.airdrop_tokens = kept;
    Ok(cfg)
}

proof fn lemma_without_excludes(tokens: Seq<String>, token: Seq<char>)
    ensures
        forall|i: int| 0 <= i < without(tokens, token).len() ==> (#[trigger] without(tokens, token)[i])@ != token,
    decreases tokens.len(),
{
    if tokens.len() > 0 {
        let rest = without(tokens.drop_last(), token);
        lemma_without_excludes(tokens.drop_last(), token);
        assert forall|i: int| 0 <= i < without(tokens, token).len() implies (#[trigger] without(tokens, token)[i])@ != token by {
            if i < rest.len() {
                assert(without(tokens, token)[i] == rest[i]);
            }
        }
    }
}

proof fn lemma_without_keeps(tokens: Seq<String>, token: Seq<char>, other: String)
    requires
        tokens.contains(other),
        other@ != token,
    ensures
        without(tokens, token).contains(other),
    decreases tokens.len(),
{
    if tokens.last() == other {
        assert(without(tokens, token).last() == other);
    } else {
        let k = choose|k: int| 0 <= k < tokens.len() && tokens[k] == other;
        assert(tokens.drop_last()[k] == other);
        lemma_without_keeps(tokens.drop_last(), token, other);
        let w = without(tokens.drop_last(), token);
        let j = choose|j: int| 0 <= j < w.len() && w[j] == other;
        if tokens.last()@ != token {
            assert(without(tokens, token)[j] == other);
        }
    }
}

/// Unregistering an airdrop token takes it, and only it, off the list: no
/// entry of that token stays, and every other token stays.
pub proof fn lemma_remove_takes_only_the_token(tokens: Seq<String>, token: Seq<char>)
    ensures
        forall|i: int| 0 <= i < without(tokens, token).len() ==> (#[trigger] without(tokens, token)[i])@ != token,
        forall|t: String| tokens.contains(t) && t@ != token ==> #[trigger] without(tokens, token).contains(t),
{
    lemma_without_excludes(tokens, token);
    assert forall|t: String| tokens.contains(t) && t@ != token implies #[trigger] without(tokens, token).contains(t) by {
        lemma_without_keeps(tokens, token, t);
    }
}

/// Registering an airdrop token that is not registered and then
/// unregistering it leaves the list of tokens as it was.
pub proof fn lemma_add_then_remove_restores(tokens: Seq<String>, token: String)
    requires
        forall|i: int| 0 <= i < tokens.len() ==> (#[trigger] tokens[i])@ != token@,
    ensures
        without(tokens.push(token), token@) == tokens,
{
    assert(tokens.push(token).drop_last() =~= tokens);
    lemma_without_unchanged(tokens, token@);
}

proof fn lemma_without_unchanged(tokens: Seq<String>, token: Seq<char>)
    requires
        forall|i: int| 0 <= i < tokens.len() ==> (#[trigger] tokens[i])@ != token,
    ensures
        without(tokens, token) == tokens,
    decreases tokens.len(),
{
    if tokens.len() > 0 {
        let rest = tokens.drop_last();
        assert forall|i: int| 0 <= i < rest.len() implies (#[trigger] rest[i])@ != token by {
            assert(rest[i] == tokens[i]);
        }
        lemma_without_unchanged(rest, token);
        assert(tokens.last() == tokens[tokens.len() - 1]);
        assert(rest.push(tokens.last()) =~= tokens);
    }
}

} // verus!
