use vstd::prelude::*;

verus! {

/// How one character of a canister name appears in an environment variable
/// name: ASCII letters upper-cased, ASCII digits kept, anything else `_`.
pub open spec fn env_char(c: char) -> char {
    if 'a' <= c && c <= 'z' {
        ((c as u32 - 32) as u8) as char
    } else if ('A' <= c && c <= 'Z') || ('0' <= c && c <= '9') {
        c
    } else {
        '_'
    }
}

pub open spec fn env_name_part(name: Seq<char>) -> Seq<char> {
    name.map_values(|c: char| env_char(c))
}

fn fold_char(c: char) -> (r: char)
    ensures
        r == env_char(c),
{
    if 'a' <= c && c <= 'z' {
        ((c as u32 - 32) as u8) as char
    } else if ('A' <= c && c <= 'Z') || ('0' <= c && c <= '9') {
        c
    } else {
        '_'
    }
}

/// Relies on `String::push`: appends one character.
#[verifier::external_body]
pub(crate) fn push_char(s: &mut String, c: char)
    ensures
        final(s)@ == old(s)@.push(c),
{
    s.push(c)
}

/// `prefix` followed by the folded form of `name`.
pub fn env_var_name(prefix: &str, name: &str) -> (r: String)
    ensures
        r@ == prefix@ + env_name_part(name@),
{
    let mut r = String::from_str(prefix);
    let len = name.unicode_len();
    let mut i: usize = 0;
    while i < len
        invariant
            len == name@.len(),
            i <= len,
            r@ == prefix@ + env_name_part(name@.subrange(0, i as int)),
        decreases len - i,
    {
        let c = name.get_char(i);
        push_char(&mut r, fold_char(c));
        proof {
            assert(env_name_part(name@.subrange(0, i + 1)) =~= env_name_part(
                name@.subrange(0, i as int),
            ).push(env_char(c)));
        }
        i = i + 1;
    }
    assert(name@.subrange(0, len as int) =~= name@);
    r
}

/// The variable through which a build learns the identifier of the
/// canister `name`.
pub open spec fn canister_id_var(name: Seq<char>) -> Seq<char> {
    "CANISTER_ID_"@ + env_name_part(name)
}

/// The variable through which a build learns where the interface
/// description of the canister `name` lies.
pub open spec fn candid_path_var(name: Seq<char>) -> Seq<char> {
    "CANISTER_CANDID_PATH_"@ + env_name_part(name)
}

pub fn canister_id_var_name(name: &str) -> (r: String)
    ensures
        r@ == canister_id_var(name@),
{
    env_var_name("CANISTER_ID_", name)
}

pub fn candid_path_var_name(name: &str) -> (r: String)
    ensures
        r@ == candid_path_var(name@),
{
    env_var_name("CANISTER_CANDID_PATH_", name)
}

} // verus!
