use vstd::prelude::*;
use anchor_lang::prelude::Pubkey;
use crate::address::Address;

verus! {

/// The marketplace program's own identity: every custody address is derived
/// under it.
pub const PROGRAM_ID: [u8; 32] = [
    34, 47, 127, 58, 234, 247, 143, 147, 32, 61, 104, 11, 118, 14, 208, 226,
    253, 37, 94, 187, 222, 64, 143, 69, 219, 205, 124, 119, 28, 163, 181, 2,
];

/// The identity of the ledger's token program.
pub const TOKEN_PROGRAM_ID: [u8; 32] = [
    6, 221, 246, 225, 215, 101, 161, 147, 217, 203, 225, 70, 206, 235, 121, 172,
    28, 180, 133, 237, 95, 91, 55, 145, 58, 140, 245, 133, 126, 255, 0, 169,
];

/// The identity of the program under which a holder's associated holdings
/// are derived.
pub const ASSOCIATED_PROGRAM_ID: [u8; 32] = [
    140, 151, 37, 143, 78, 36, 137, 241, 187, 61, 16, 41, 20, 142, 13, 131,
    11, 90, 19, 153, 218, 255, 16, 132, 4, 142, 123, 216, 219, 233, 248, 89,
];

/// What the ledger's address derivation gives for a list of seeds under a
/// program: the derived address with the salt that was found for it, or
/// nothing where no address can be derived.
pub uninterp spec fn program_address(seeds: Seq<Seq<u8>>, program: Seq<u8>) -> Option<(Seq<u8>, u8)>;

/// The byte strings that a list of seeds holds.
pub open spec fn seed_views(seeds: Seq<Vec<u8>>) -> Seq<Seq<u8>> {
    Seq::new(seeds.len(), |i: int| seeds[i]@)
}

/// The identity whose bytes are `bytes`.
pub open spec fn address_of(bytes: Seq<u8>) -> Address {
    choose|a: Address| a@ == bytes
}

/// An identity is the one whose bytes are its own.
pub proof fn lemma_address_of(a: Address)
    ensures
        address_of(a@) == a,
{
    Address::lemma_same_bytes(address_of(a@), a);
}

/// The address derived from `seeds` under `program`, with its salt.
pub open spec fn derived(seeds: Seq<Seq<u8>>, program: Address) -> Option<(Address, u8)> {
    match program_address(seeds, program@) {
        Some((bytes, bump)) => Some((address_of(bytes), bump)),
        None => None,
    }
}

/// Calls `Pubkey::try_find_program_address` of the ledger's SDK on the bytes
/// of the seeds and of the program. Trusted, not proved: what comes back is
/// the derivation `program_address` of these very bytes. Nothing is claimed
/// of which address that is, nor that there is one.
#[verifier::external_body]
fn find_program_address(seeds: &Vec<Vec<u8>>, program: &Address) -> (r: Option<(Address, u8)>)
    ensures
        match r {
            Some((a, bump)) => program_address(seed_views(seeds@), program@) == Some((a@, bump)),
            None => program_address(seed_views(seeds@), program@) is None,
        },
{
    let parts: Vec<&[u8]> = seeds.iter().map(|s| s.as_slice()).collect();
    match Pubkey::try_find_program_address(&parts, &Pubkey::new_from_array(program.bytes)) {
        Some((key, bump)) => Some((Address { bytes: key.to_bytes() }, bump)),
        None => None,
    }
}

/// Derives the address for `seeds` under `program`, with the salt that
/// makes it one no key pair can sign for.
pub fn derive_address(seeds: &Vec<Vec<u8>>, program: &Address) -> (r: Option<(Address, u8)>)
    ensures
        r == derived(seed_views(seeds@), *program),
{
    let r = find_program_address(seeds, program);
    proof {
        if let Some((a, bump)) = r {
            lemma_address_of(a);
        }
    }
    r
}

/// The marketplace program's identity.
pub open spec fn marketplace() -> Address {
    Address { bytes: PROGRAM_ID }
}

/// The marketplace program's identity.
pub fn program_id() -> (a: Address)
    ensures
        a == marketplace(),
{
    Address { bytes: PROGRAM_ID }
}

/// Namespace tag of custody vaults: the bytes of "vault".
pub open spec fn vault_tag() -> Seq<u8> {
    seq![118u8, 97u8, 117u8, 108u8, 116u8]
}

/// Namespace tag of listings: the bytes of "listing".
pub open spec fn listing_tag() -> Seq<u8> {
    seq![108u8, 105u8, 115u8, 116u8, 105u8, 110u8, 103u8]
}

/// Namespace tag of sellers' receiving holdings: the bytes of "escrow".
pub open spec fn escrow_tag() -> Seq<u8> {
    seq![101u8, 115u8, 99u8, 114u8, 111u8, 119u8]
}

/// The seeds of the custody vault of `asset`.
pub open spec fn vault_seeds(asset: Address) -> Seq<Seq<u8>> {
    seq![vault_tag(), asset@]
}

/// The seeds of the listing of `asset` by `seller`.
pub open spec fn listing_seeds(asset: Address, seller: Address) -> Seq<Seq<u8>> {
    seq![listing_tag(), asset@, seller@]
}

/// The seeds of the holding in which `seller` receives `ask_asset`.
pub open spec fn escrow_seeds(seller: Address, ask_asset: Address) -> Seq<Seq<u8>> {
    seq![escrow_tag(), seller@, ask_asset@]
}

/// The seeds of `holder`'s associated holding of `asset`, which is derived
/// under the associated-holdings program.
pub open spec fn associated_seeds(holder: Address, asset: Address) -> Seq<Seq<u8>> {
    seq![holder@, TOKEN_PROGRAM_ID@, asset@]
}

/// The address alone of a derivation.
pub open spec fn address_part(d: Option<(Address, u8)>) -> Option<Address> {
    match d {
        Some((a, _)) => Some(a),
        None => None,
    }
}

/// Where the custody vault of `asset` stands.
pub open spec fn vault_address(asset: Address) -> Option<Address> {
    address_part(derived(vault_seeds(asset), marketplace()))
}

/// Where the listing of `asset` by `seller` stands.
pub open spec fn listing_address(asset: Address, seller: Address) -> Option<Address> {
    address_part(derived(listing_seeds(asset, seller), marketplace()))
}

/// Where `seller` receives payments made in `ask_asset`.
pub open spec fn escrow_address(seller: Address, ask_asset: Address) -> Option<Address> {
    address_part(derived(escrow_seeds(seller, ask_asset), marketplace()))
}

/// Where `holder` keeps `asset`: the holder's associated holding.
pub open spec fn associated_address(holder: Address, asset: Address) -> Option<Address> {
    address_part(derived(associated_seeds(holder, asset), Address { bytes: ASSOCIATED_PROGRAM_ID }))
}

/// The bytes of an identity, as a seed.
fn bytes_of(a: &Address) -> (v: Vec<u8>)
    ensures
        v@ == a@,
{
    let mut v: Vec<u8> = Vec::new();
    let mut i: usize = 0;
    while i < 32
        invariant
            i <= 32,
            v@.len() == i,
            forall|j: int| 0 <= j < i ==> v@[j] == a.bytes@[j],
        decreases 32 - i,
    {
        v.push(a.bytes[i]);
        i = i + 1;
    }
    v
}

/// The seeds made of a tag and one or two identities.
fn seeds_of(tag: Vec<u8>, first: &Address, second: Option<&Address>) -> (seeds: Vec<Vec<u8>>)
    ensures
        seed_views(seeds@) == match second {
            Some(s) => seq![tag@, first@, s@],
            None => seq![tag@, first@],
        },
{
    let mut seeds: Vec<Vec<u8>> = Vec::new();
    seeds.push(tag);
    seeds.push(bytes_of(first));
    if let Some(s) = second {
        seeds.push(bytes_of(s));
    }
    seeds
}

/// The proof that program logic holds over the custody vault of one asset:
/// the vault's derived address with its salt. It is made by `derive_vault`
/// alone, so none exists for an address that was not derived.
#[derive(Debug)]
pub struct VaultAuthority {
    asset: Address,
    address: Address,
    bump: u8,
}

impl VaultAuthority {
    #[verifier::type_invariant]
    closed spec fn sealed(self) -> bool {
        derived(vault_seeds(self.asset), marketplace()) == Some((self.address, self.bump))
    }

    /// The asset whose vault this proof opens.
    pub closed spec fn asset(self) -> Address {
        self.asset
    }

    /// The asset whose vault this proof opens.
    pub fn mint(&self) -> (m: Address)
        ensures
            m == self.asset(),
    {
        self.asset
    }

    /// The vault's address.
    pub fn address(&self) -> (a: Address)
        ensures
            vault_address(self.asset()) == Some(a),
    {
        proof {
            use_type_invariant(self);
        }
        self.address
    }

    /// The salt of the derivation.
    pub fn bump(&self) -> (b: u8)
        ensures
            derived(vault_seeds(self.asset()), marketplace()) matches Some((_, s)) && s == b,
    {
        proof {
            use_type_invariant(self);
        }
        self.bump
    }
}

/// Derives the custody vault of `asset` and the proof that opens it.
pub fn derive_vault(asset: &Address) -> (r: Option<VaultAuthority>)
    ensures
        r is Some <==> vault_address(*asset) is Some,
        r matches Some(p) ==> p.asset() == *asset,
{
    let seeds = seeds_of(vec![118u8, 97u8, 117u8, 108u8, 116u8], asset, None);
    match derive_address(&seeds, &program_id()) {
        Some((address, bump)) => Some(VaultAuthority { asset: *asset, address, bump }),
        None => None,
    }
}

/// Derives the address of the listing of `asset` by `seller`.
pub fn derive_listing(asset: &Address, seller: &Address) -> (r: Option<Address>)
    ensures
        r == listing_address(*asset, *seller),
{
    let seeds = seeds_of(
        vec![108u8, 105u8, 115u8, 116u8, 105u8, 110u8, 103u8],
        asset,
        Some(seller),
    );
    match derive_address(&seeds, &program_id()) {
        Some((address, _)) => Some(address),
        None => None,
    }
}

/// Derives the address at which `seller` receives payments in `ask_asset`.
pub fn derive_escrow(seller: &Address, ask_asset: &Address) -> (r: Option<Address>)
    ensures
        r == escrow_address(*seller, *ask_asset),
{
    let seeds = seeds_of(vec![101u8, 115u8, 99u8, 114u8, 111u8, 119u8], seller, Some(ask_asset));
    match derive_address(&seeds, &program_id()) {
        Some((address, _)) => Some(address),
        None => None,
    }
}

/// Derives the address of `holder`'s associated holding of `asset`.
pub fn derive_associated(holder: &Address, asset: &Address) -> (r: Option<Address>)
    ensures
        r == associated_address(*holder, *asset),
{
    let token_program = Address { bytes: TOKEN_PROGRAM_ID };
    let seeds = seeds_of(bytes_of(holder), &token_program, Some(asset));
    match derive_address(&seeds, &Address { bytes: ASSOCIATED_PROGRAM_ID }) {
        Some((address, _)) => Some(address),
        None => None,
    }
}

} // verus!
