//! Validation of host-supplied configuration into sink configurations.
//!
//! The host hands the plugin a generic key/value tree.  Each `Node` block
//! names one destination; the schema is strict: unknown blocks or fields
//! are rejected, `Name` and `Address` are required, `Prefix` is optional,
//! and an empty configuration is valid.

use vstd::prelude::*;
use vstd::string::StrSliceExecFns;

verus! {

/// One leaf of the configuration tree: a key with its string value.
pub struct ConfigSetting {
    pub key: String,
    pub value: String,
}

/// One block of the configuration tree: its key and its leaf settings.
pub struct ConfigBlock {
    pub key: String,
    pub settings: Vec<ConfigSetting>,
}

/// A named destination: a network address and an optional identifier
/// prefix.  Parsed once at startup and immutable thereafter; each one is
/// served by exactly one long-lived writer.
#[derive(Debug)]
pub struct SinkConfig {
    pub name: String,
    pub address: String,
    pub prefix: Option<String>,
}

/// Why a configuration was rejected.  Any such error is fatal at
/// registration time.
#[derive(Debug, Clone, Copy, PartialEq, Eq, Structural)]
pub enum ConfigError {
    UnknownBlock,
    UnknownField,
    DuplicateField,
    MissingName,
    MissingAddress,
}

/// How many settings of `ss` carry the key `k`.
pub open spec fn count_key(ss: Seq<ConfigSetting>, k: Seq<char>) -> int
    decreases ss.len(),
{
    if ss.len() == 0 {
        0
    } else {
        count_key(ss.drop_last(), k) + (if ss.last().key@ == k {
            1int
        } else {
            0int
        })
    }
}

/// The keys a `Node` block may hold.
pub open spec fn known_key(k: Seq<char>) -> bool {
    k == "Name"@ || k == "Address"@ || k == "Prefix"@
}

/// A well-formed `Node` block: only known keys, `Name` and `Address`
/// exactly once each, `Prefix` at most once.
pub open spec fn block_valid(b: ConfigBlock) -> bool {
    &&& b.key@ == "Node"@
    &&& forall|i: int| 0 <= i < b.settings@.len() ==> known_key(#[trigger] b.settings@[i].key@)
    &&& count_key(b.settings@, "Name"@) == 1
    &&& count_key(b.settings@, "Address"@) == 1
    &&& count_key(b.settings@, "Prefix"@) <= 1
}

/// The sink configuration `c` holds exactly what the block `b` names.
pub open spec fn config_of_block(b: ConfigBlock, c: SinkConfig) -> bool {
    &&& exists|i: int|
        0 <= i < b.settings@.len() && #[trigger] b.settings@[i].key@ == "Name"@ && c.name@
            == b.settings@[i].value@
    &&& exists|i: int|
        0 <= i < b.settings@.len() && #[trigger] b.settings@[i].key@ == "Address"@ && c.address@
            == b.settings@[i].value@
    &&& match c.prefix {
        Some(p) => exists|i: int|
            0 <= i < b.settings@.len() && #[trigger] b.settings@[i].key@ == "Prefix"@ && p@
                == b.settings@[i].value@,
        None => count_key(b.settings@, "Prefix"@) == 0,
    }
}

/// A counted key occurs at least as often in the whole sequence as in
/// any front part of it.
proof fn lemma_count_key_prefix(ss: Seq<ConfigSetting>, k: Seq<char>, i: int)
    requires
        0 <= i <= ss.len(),
    ensures
        count_key(ss.take(i), k) <= count_key(ss, k),
    decreases ss.len(),
{
    if i == ss.len() {
        assert(ss.take(i) =~= ss);
    } else {
        assert(ss.drop_last().take(i) =~= ss.take(i));
        lemma_count_key_prefix(ss.drop_last(), k, i);
    }
}

/// Whether two pieces of text hold the same characters.
fn str_eq(a: &str, b: &str) -> (r: bool)
    ensures
        r == (a@ == b@),
{
    let la = a.unicode_len();
    let lb = b.unicode_len();
    if la != lb {
        return false;
    }
    let mut i: usize = 0;
    while i < la
        invariant
            i <= la,
            la == a@.len(),
            lb == b@.len(),
            la == lb,
            forall|j: int| 0 <= j < i ==> a@[j] == b@[j],
        decreases la - i,
    {
        if a.get_char(i) != b.get_char(i) {
            return false;
        }
        i = i + 1;
    }
    proof {
        assert(a@ =~= b@);
    }
    true
}

/// Validate one block of the configuration.  Returns the destination it
/// names exactly when the block is well formed, and otherwise which rule
/// it breaks: `UnknownBlock` if and only if the block is not a `Node`.
#[verifier::loop_isolation(false)]
pub fn parse_block(b: &ConfigBlock) -> (r: Result<SinkConfig, ConfigError>)
    ensures
        r is Ok <==> block_valid(*b),
        match r {
            Ok(c) => config_of_block(*b, c),
            Err(e) => match e {
                ConfigError::UnknownBlock => b.key@ != "Node"@,
                ConfigError::UnknownField => exists|i: int|
                    0 <= i < b.settings@.len() && !known_key(#[trigger] b.settings@[i].key@),
                ConfigError::DuplicateField => count_key(b.settings@, "Name"@) > 1 || count_key(
                    b.settings@,
                    "Address"@,
                ) > 1 || count_key(b.settings@, "Prefix"@) > 1,
                ConfigError::MissingName => count_key(b.settings@, "Name"@) == 0,
                ConfigError::MissingAddress => count_key(b.settings@, "Address"@) == 0,
            },
        },
{
    broadcast use vstd::string::group_string_axioms;

    proof {
        reveal_strlit("Name");
        reveal_strlit("Address");
        reveal_strlit("Prefix");
        assert("Name"@.len() == 4 && "Address"@.len() == 7 && "Prefix"@.len() == 6);
        assert("Name"@ != "Address"@ && "Name"@ != "Prefix"@ && "Address"@ != "Prefix"@);
    }
    if !str_eq(b.key.as_str(), "Node") {
        return Err(ConfigError::UnknownBlock);
    }
    let mut name: Option<String> = None;
    let mut address: Option<String> = None;
    let mut prefix: Option<String> = None;
    let mut i: usize = 0;
    while i < b.settings.len()
        invariant
            i <= b.settings@.len(),
            forall|j: int| 0 <= j < i ==> known_key(#[trigger] b.settings@[j].key@),
            count_key(b.settings@.take(i as int), "Name"@) == (if name is Some {
                1int
            } else {
                0int
            }),
            count_key(b.settings@.take(i as int), "Address"@) == (if address is Some {
                1int
            } else {
                0int
            }),
            count_key(b.settings@.take(i as int), "Prefix"@) == (if prefix is Some {
                1int
            } else {
                0int
            }),
            match name {
                Some(v) => exists|j: int|
                    0 <= j < i && #[trigger] b.settings@[j].key@ == "Name"@ && v@
                        == b.settings@[j].value@,
                None => true,
            },
            match address {
                Some(v) => exists|j: int|
                    0 <= j < i && #[trigger] b.settings@[j].key@ == "Address"@ && v@
                        == b.settings@[j].value@,
                None => true,
            },
            match prefix {
                Some(v) => exists|j: int|
                    0 <= j < i && #[trigger] b.settings@[j].key@ == "Prefix"@ && v@
                        == b.settings@[j].value@,
                None => true,
            },
        decreases b.settings@.len() - i,
    {
        proof {
            assert(b.settings@.take(i as int + 1).drop_last() =~= b.settings@.take(i as int));
            assert(b.settings@.take(i as int + 1).last() == b.settings@[i as int]);
        }
        let s = &b.settings[i];
        if str_eq(s.key.as_str(), "Name") {
            if name.is_some() {
                proof {
                    lemma_count_key_prefix(b.settings@, "Name"@, i as int + 1);
                }
                return Err(ConfigError::DuplicateField);
            }
            name = Some(s.value.clone());
        } else if str_eq(s.key.as_str(), "Address") {
            if address.is_some() {
                proof {
                    lemma_count_key_prefix(b.settings@, "Address"@, i as int + 1);
                }
                return Err(ConfigError::DuplicateField);
            }
            address = Some(s.value.clone());
        } else if str_eq(s.key.as_str(), "Prefix") {
            if prefix.is_some() {
                proof {
                    lemma_count_key_prefix(b.settings@, "Prefix"@, i as int + 1);
                }
                return Err(ConfigError::DuplicateField);
            }
            prefix = Some(s.value.clone());
        } else {
            return Err(ConfigError::UnknownField);
        }
        i = i + 1;
    }
    proof {
        assert(b.settings@.take(b.settings@.len() as int) =~= b.settings@);
    }
    let name = match name {
        Some(v) => v,
        None => {
            return Err(ConfigError::MissingName);
        },
    };
    let address = match address {
        Some(v) => v,
        None => {
            return Err(ConfigError::MissingAddress);
        },
    };
    Ok(SinkConfig { name, address, prefix })
}

/// Validate a whole configuration: one destination per `Node` block, in
/// order; an empty configuration is valid and yields no destinations.
pub fn parse_config(blocks: &Vec<ConfigBlock>) -> (r: Result<Vec<SinkConfig>, ConfigError>)
    ensures
        match r {
            Ok(cs) => {
                &&& cs@.len() == blocks@.len()
                &&& forall|k: int|
                    0 <= k < blocks@.len() ==> block_valid(#[trigger] blocks@[k]) && config_of_block(
                        blocks@[k],
                        cs@[k],
                    )
            },
            Err(_) => exists|k: int| 0 <= k < blocks@.len() && !block_valid(#[trigger] blocks@[k]),
        },
{
    let mut out: Vec<SinkConfig> = Vec::new();
    let mut i: usize = 0;
    while i < blocks.len()
        invariant
            i <= blocks@.len(),
            out@.len() == i,
            forall|k: int|
                0 <= k < i ==> block_valid(#[trigger] blocks@[k]) && config_of_block(
                    blocks@[k],
                    out@[k],
                ),
        decreases blocks@.len() - i,
    {
        match parse_block(&blocks[i]) {
            Ok(c) => {
                out.push(c);
            },
            Err(e) => {
                return Err(e);
            },
        }
        i = i + 1;
    }
    Ok(out)
}

} // verus!
