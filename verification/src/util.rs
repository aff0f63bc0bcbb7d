use vstd::prelude::*;
use vstd::string::*;

use crate::error::NmError;
use crate::ip4::Ipv4Cidr;

verus! {

/// The fixed private-use address an access point falls back to when no
/// static IPv4 address is given: 192.0.2.1/24.
pub fn default_ip4_addr() -> (r: Ipv4Cidr)
    ensures
        r == spec_default_ip4_addr(),
        r.wf(),
{
    Ipv4Cidr { o0: 192, o1: 0, o2: 2, o3: 1, prefix_len: 24 }
}

pub open spec fn spec_default_ip4_addr() -> Ipv4Cidr {
    Ipv4Cidr { o0: 192, o1: 0, o2: 2, o3: 1, prefix_len: 24 }
}

/// What [`validate_password`] decides for a raw password text.
pub open spec fn spec_validate_password(password: Seq<char>, backend_psk_valid: bool) -> Result<
    Option<Seq<char>>,
    NmError,
> {
    if password.len() == 0 {
        Ok(None)
    } else if password.len() < 8 {
        Err(NmError::PasswordTooShort)
    } else if !backend_psk_valid {
        Err(NmError::InvalidPsk)
    } else {
        Ok(Some(password))
    }
}

/// Validates a WPA pre-shared key: the empty string means "no password";
/// one to seven characters are rejected; eight or more characters are
/// accepted only when the backend's own key check, whose verdict the caller
/// supplies in `backend_psk_valid`, also accepts them.
pub fn validate_password(password: &str, backend_psk_valid: bool) -> (r: Result<
    Option<String>,
    NmError,
>)
    ensures
        ({
            let expect = spec_validate_password(password@, backend_psk_valid);
            match r {
                Ok(None) => expect == Ok::<Option<Seq<char>>, NmError>(None),
                Ok(Some(p)) => expect == Ok::<Option<Seq<char>>, NmError>(Some(p@)) && p@
                    == password@,
                Err(e) => expect == Err::<Option<Seq<char>>, NmError>(e),
            }
        }),
{
    let n = password.unicode_len();
    if n == 0 {
        Ok(None)
    } else if n < 8 {
        Err(NmError::PasswordTooShort)
    } else if !backend_psk_valid {
        Err(NmError::InvalidPsk)
    } else {
        Ok(Some(String::from_str(password)))
    }
}

/// The values of a list of strings.
pub open spec fn str_seq_view(v: Seq<String>) -> Seq<Seq<char>> {
    Seq::new(v.len(), |i: int| v[i]@)
}

/// The first `n` entries of `s` with later duplicates removed, keeping the
/// first occurrence of each value in order.
pub open spec fn spec_dedup(s: Seq<Seq<char>>, n: int) -> Seq<Seq<char>>
    decreases n,
{
    if n <= 0 {
        Seq::empty()
    } else {
        let rest = spec_dedup(s, n - 1);
        if rest.contains(s[n - 1]) {
            rest
        } else {
            rest.push(s[n - 1])
        }
    }
}

/// Whether some entry of `v` has the same text as `name`.
pub fn contains_string(v: &Vec<String>, name: &String) -> (r: bool)
    ensures
        r == str_seq_view(v@).contains(name@),
{
    let mut i: usize = 0;
    while i < v.len()
        invariant
            i <= v@.len(),
            forall|j: int| 0 <= j < i ==> v@[j]@ != name@,
        decreases v@.len() - i,
    {
        if v[i] == *name {
            proof {
                assert(str_seq_view(v@)[i as int] == name@);
            }
            return true;
        }
        i += 1;
    }
    proof {
        if str_seq_view(v@).contains(name@) {
            let k = choose|k: int|
                0 <= k < str_seq_view(v@).len() && str_seq_view(v@)[k] == name@;
            assert(v@[k]@ == name@);
        }
    }
    false
}

/// Removes duplicate names, keeping the first occurrence of each in order.
pub fn dedup_names(names: Vec<String>) -> (r: Vec<String>)
    ensures
        str_seq_view(r@) == spec_dedup(str_seq_view(names@), names@.len() as int),
{
    let mut out: Vec<String> = Vec::new();
    let mut i: usize = 0;
    while i < names.len()
        invariant
            i <= names@.len(),
            str_seq_view(out@) == spec_dedup(str_seq_view(names@), i as int),
        decreases names@.len() - i,
    {
        let ghost pre = str_seq_view(out@);
        if !contains_string(&out, &names[i]) {
            out.push(names[i].clone());
            proof {
                assert(str_seq_view(out@) =~= pre.push(names@[i as int]@));
                assert(str_seq_view(names@)[i as int] == names@[i as int]@);
            }
        } else {
            proof {
                assert(str_seq_view(names@)[i as int] == names@[i as int]@);
            }
        }
        i += 1;
    }
    out
}

/// An optional string field where the empty string means "unset".
pub open spec fn spec_normalized(v: Option<Seq<char>>) -> Option<Seq<char>> {
    match v {
        Some(s) => if s.len() == 0 {
            None
        } else {
            Some(s)
        },
        None => None,
    }
}

/// Normalizes an optional string field: an empty string becomes `None`.
pub fn normalize_optional(v: Option<String>) -> (r: Option<String>)
    ensures
        crate::connection::opt_str_view(r) == spec_normalized(crate::connection::opt_str_view(v)),
{
    match v {
        Some(s) => {
            if s.as_str().unicode_len() == 0 {
                None
            } else {
                Some(s)
            }
        },
        None => None,
    }
}

} // verus!
