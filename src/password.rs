//! Random passwords drawn from configurable character sets.
use vstd::prelude::*;
use crate::text::{push_char, str_has_char};

verus! {

pub const UPPERCASE: &'static str = "ABCDEFGHIJKLMNOPQRSTUVWXYZ";
pub const LOWERCASE: &'static str = "abcdefghijklmnopqrstuvwxyz";
pub const NUMBERS: &'static str = "0123456789";
pub const SYMBOLS: &'static str = "!@#$%^&*()_+-=[]{}|;:,.<>?";

/// Characters that are easily read as one another.
pub const AMBIGUOUS: &'static str = "0O1lI";

/// Length and character sets of the passwords to make.
#[derive(Debug, Clone)]
pub struct PasswordConfig {
    pub length: usize,
    pub uppercase: bool,
    pub lowercase: bool,
    pub numbers: bool,
    pub symbols: bool,
    pub exclude_ambiguous: bool,
    pub exclude_chars: String,
}

impl Default for PasswordConfig {
    fn default() -> (r: Self)
        ensures
            r.length == 16,
            r.uppercase && r.lowercase && r.numbers && r.symbols,
            !r.exclude_ambiguous,
            r.exclude_chars@.len() == 0,
    {
        PasswordConfig {
            length: 16,
            uppercase: true,
            lowercase: true,
            numbers: true,
            symbols: true,
            exclude_ambiguous: false,
            exclude_chars: String::new(),
        }
    }
}

/// Why no password could be made.
#[derive(Debug, Clone, Copy, PartialEq, Eq, Structural)]
pub enum PasswordError {
    NoCharacterSets,
    EmptyCharacterPool,
}

impl PasswordError {
    /// The text shown for the error.
    pub fn message(&self) -> (r: String)
        ensures
            *self == PasswordError::NoCharacterSets ==> r@
                == "At least one character set must be enabled"@,
            *self == PasswordError::EmptyCharacterPool ==> r@
                == "No characters available after applying exclusions"@,
    {
        match self {
            PasswordError::NoCharacterSets => "At least one character set must be enabled".to_string(),
            PasswordError::EmptyCharacterPool => {
                "No characters available after applying exclusions".to_string()
            },
        }
    }
}

/// Whether any character set is enabled.
pub open spec fn any_set(c: PasswordConfig) -> bool {
    c.uppercase || c.lowercase || c.numbers || c.symbols
}

/// The enabled character sets, one after another.
pub open spec fn enabled_chars(c: PasswordConfig) -> Seq<char> {
    (if c.uppercase { UPPERCASE@ } else { Seq::empty() }) + (if c.lowercase {
        LOWERCASE@
    } else {
        Seq::empty()
    }) + (if c.numbers { NUMBERS@ } else { Seq::empty() }) + (if c.symbols {
        SYMBOLS@
    } else {
        Seq::empty()
    })
}

/// Whether a character survives the exclusions.
pub open spec fn allowed(c: PasswordConfig, ch: char) -> bool {
    !(c.exclude_ambiguous && AMBIGUOUS@.contains(ch)) && !c.exclude_chars@.contains(ch)
}

/// The characters a password is drawn from.
pub open spec fn character_pool(c: PasswordConfig) -> Seq<char> {
    enabled_chars(c).filter(|ch: char| allowed(c, ch))
}

/// Relies on `rand::thread_rng` and `Rng::gen_range`, which returns a value
/// of the range and panics only on an empty one.
#[verifier::external_body]
fn random_below(n: usize) -> (r: usize)
    requires
        n > 0,
    ensures
        r < n,
{
    rand::Rng::gen_range(&mut rand::thread_rng(), 0..n)
}

fn keeps(config: &PasswordConfig, ch: char) -> (r: bool)
    ensures
        r == allowed(*config, ch),
{
    !(config.exclude_ambiguous && str_has_char(AMBIGUOUS, ch)) && !str_has_char(
        config.exclude_chars.as_str(),
        ch,
    )
}

/// The character pool of a configuration, in the order of the sets.
pub fn build_pool(config: &PasswordConfig) -> (r: Vec<char>)
    ensures
        r@ == character_pool(*config),
{
    let mut charset = String::new();
    if config.uppercase {
        charset.append(UPPERCASE);
    }
    if config.lowercase {
        charset.append(LOWERCASE);
    }
    if config.numbers {
        charset.append(NUMBERS);
    }
    if config.symbols {
        charset.append(SYMBOLS);
    }
    assert(charset@ =~= enabled_chars(*config));
    let ghost pred = |ch: char| allowed(*config, ch);
    let n = charset.as_str().unicode_len();
    let mut pool: Vec<char> = Vec::new();
    let mut i: usize = 0;
    while i < n
        invariant
            n == charset@.len(),
            charset@ == enabled_chars(*config),
            pred == (|ch: char| allowed(*config, ch)),
            i <= n,
            pool@ == charset@.subrange(0, i as int).filter(pred),
        decreases n - i,
    {
        let ch = charset.as_str().get_char(i);
        proof {
            let s = charset@.subrange(0, i + 1);
            assert(s.drop_last() =~= charset@.subrange(0, i as int));
            assert(s.last() == ch);
            reveal(Seq::filter);
        }
        if keeps(config, ch) {
            pool.push(ch);
        }
        i += 1;
    }
    assert(charset@.subrange(0, n as int) =~= charset@);
    pool
}

/// Makes a password of the configured length, each character drawn at
/// random from the enabled sets less the excluded characters. Fails with
/// `NoCharacterSets` when no set is enabled, and with `EmptyCharacterPool`
/// when the exclusions leave nothing to draw from.
pub fn generate_password(config: &PasswordConfig) -> (r: Result<String, PasswordError>)
    ensures
        !any_set(*config) ==> r == Err::<String, PasswordError>(PasswordError::NoCharacterSets),
        any_set(*config) && character_pool(*config).len() == 0 ==> r == Err::<
            String,
            PasswordError,
        >(PasswordError::EmptyCharacterPool),
        any_set(*config) && character_pool(*config).len() > 0 ==> r is Ok,
        r is Ok ==> r->Ok_0@.len() == config.length && forall|i: int|
            0 <= i < config.length ==> character_pool(*config).contains(#[trigger] r->Ok_0@[i]),
{
    if !(config.uppercase || config.lowercase || config.numbers || config.symbols) {
        return Err(PasswordError::NoCharacterSets);
    }
    let pool = build_pool(config);
    if pool.len() == 0 {
        return Err(PasswordError::EmptyCharacterPool);
    }
    let mut password = String::new();
    let mut i: usize = 0;
    while i < config.length
        invariant
            pool@ == character_pool(*config),
            pool@.len() > 0,
            i <= config.length,
            password@.len() == i,
            forall|k: int| 0 <= k < i ==> pool@.contains(#[trigger] password@[k]),
        decreases config.length - i,
    {
        let idx = random_below(pool.len());
        let ch = pool[idx];
        push_char(&mut password, ch);
        proof {
            assert(password@[i as int] == pool@[idx as int]);
        }
        i += 1;
    }
    Ok(password)
}

} // verus!
