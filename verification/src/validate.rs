//! Identifier validation for every engine reference the UI hands over
//! (container ids and names, image references, volume names).
//!
//! Some identifiers are later interpolated into CLI arguments, so the
//! character whitelist forbids shell metacharacters while admitting every
//! legal engine reference: short and long hex ids, tagged image names,
//! registry paths, digest-pinned names, and names with dots or underscores.

use vstd::prelude::*;
use vstd::string::*;
use vstd::utf8::is_ascii_chars_encode_utf8;

verus! {

/// A character an identifier may contain: ASCII alphanumeric or one of
/// `-`, `_`, `.`, `/`, `:`, `@`.
pub open spec fn is_allowed_id_char(c: char) -> bool {
    ||| 'a' <= c <= 'z'
    ||| 'A' <= c <= 'Z'
    ||| '0' <= c <= '9'
    ||| c == '-'
    ||| c == '_'
    ||| c == '.'
    ||| c == '/'
    ||| c == ':'
    ||| c == '@'
}

/// Every character of the sequence is allowed in an identifier.
pub open spec fn all_id_chars_allowed(s: Seq<char>) -> bool {
    forall|i: int| 0 <= i < s.len() ==> is_allowed_id_char(#[trigger] s[i])
}

/// The validator accepts exactly the identifiers that are non-empty, at most
/// 256 bytes long, and made only of allowed characters.
pub open spec fn id_accepted(s: Seq<char>) -> bool {
    &&& s.len() >= 1
    &&& vstd::utf8::encode_utf8(s).len() <= 256
    &&& all_id_chars_allowed(s)
}

/// The message an identifier is rejected with: the first rule it breaks, in
/// the order empty, too long, bad character.
pub open spec fn rejection_msg(s: Seq<char>) -> Seq<char> {
    if s.len() == 0 {
        "Identifier cannot be empty"@
    } else if vstd::utf8::encode_utf8(s).len() > 256 {
        "Identifier too long"@
    } else {
        "Invalid identifier: "@ + s
    }
}

/// A shell metacharacter the whitelist must keep out: any identifier holding
/// one is rejected.
pub open spec fn is_shell_metachar(c: char) -> bool {
    ||| c == ';'
    ||| c == '`'
    ||| c == '$'
    ||| c == '|'
    ||| c == '&'
    ||| c == '>'
    ||| c == '<'
    ||| c == '*'
    ||| c == '\''
    ||| c == '"'
    ||| c == ' '
}

/// Validate an engine resource identifier (container id or name, image
/// reference, volume name). Returns `Ok(())` exactly on accepted inputs, and
/// the rejection reason otherwise: empty, longer than 256 bytes, or holding
/// a character outside the whitelist.
pub fn validate_docker_id(id: &str) -> (r: Result<(), String>)
    ensures
        r is Ok <==> id_accepted(id@),
        r matches Err(m) ==> m@ == rejection_msg(id@),
{
    if id.is_empty() {
        return Err("Identifier cannot be empty".to_owned());
    }
    if id.as_bytes().len() > 256 {
        return Err("Identifier too long".to_owned());
    }
    let n = id.unicode_len();
    for i in 0..n
        invariant
            n == id@.len(),
            id@.len() > 0,
            id.spec_bytes().len() <= 256,
            forall|j: int| 0 <= j < i ==> is_allowed_id_char(#[trigger] id@[j]),
    {
        let c = id.get_char(i);
        let allowed = ('a' <= c && c <= 'z') || ('A' <= c && c <= 'Z') || ('0' <= c && c <= '9')
            || c == '-' || c == '_' || c == '.' || c == '/' || c == ':' || c == '@';
        if !allowed {
            let mut msg = String::from_str("Invalid identifier: ");
            msg.append(id);
            return Err(msg);
        }
    }
    Ok(())
}

/// Validator whitelist law. Any string of 1 to 256 characters drawn only
/// from the whitelist is accepted — such a string is pure ASCII, so its byte
/// length equals its character length. Any string holding a shell
/// metacharacter is rejected.
pub proof fn lemma_validator_whitelist(s: Seq<char>)
    ensures
        1 <= s.len() <= 256 && all_id_chars_allowed(s) ==> id_accepted(s),
        (exists|i: int| 0 <= i < s.len() && is_shell_metachar(#[trigger] s[i]))
            ==> !id_accepted(s),
{
    if 1 <= s.len() <= 256 && all_id_chars_allowed(s) {
        assert(vstd::utf8::is_ascii_chars(s)) by {
            assert(forall|i: int|
                0 <= i < s.len() ==> is_allowed_id_char(#[trigger] s[i]) ==> '\0' <= s[i]
                    <= '\u{7f}');
        }
        is_ascii_chars_encode_utf8(s);
        assert(vstd::utf8::encode_utf8(s).len() == s.len());
    }
    if exists|i: int| 0 <= i < s.len() && is_shell_metachar(#[trigger] s[i]) {
        let i = choose|i: int| 0 <= i < s.len() && is_shell_metachar(#[trigger] s[i]);
        assert(!is_allowed_id_char(s[i]));
    }
}

} // verus!
