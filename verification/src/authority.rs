use vstd::prelude::*;
use crate::uri::{
    all_digits_from, digits_after, find_last_colon, is_digit, is_last_colon, last_colon_of,
    lemma_last_colon_unique,
};

verus! {

/// The numeric value of one decimal digit character.
pub open spec fn digit_val(c: char) -> int {
    c as u32 - '0' as u32
}

/// The numeric value of a run of decimal digits, most significant first.
pub open spec fn digits_value(s: Seq<char>) -> int
    decreases s.len(),
{
    if s.len() == 0 {
        0
    } else {
        digits_value(s.drop_last()) * 10 + digit_val(s.last())
    }
}

/// Ten to the power `n`.
pub open spec fn pow10(n: nat) -> int
    decreases n,
{
    if n == 0 {
        1
    } else {
        10 * pow10((n - 1) as nat)
    }
}

/// The authority `a` is a well-formed `host:port` pair when split at the
/// last colon `i`: non-empty host, one to five digits of port, and a port
/// value that fits a sixteen-bit integer.
pub open spec fn authority_ok_at(a: Seq<char>, i: int) -> bool {
    &&& 1 <= i
    &&& i + 1 < a.len()
    &&& a.len() - (i + 1) <= 5
    &&& digits_after(a, i)
    &&& digits_value(a.skip(i + 1)) <= 65535
}

/// The authority is a socket-reachable `host:port` pair.
pub open spec fn valid_authority(a: Seq<char>) -> bool {
    exists|i: int| is_last_colon(a, i) && authority_ok_at(a, i)
}

/// The host part of a valid authority: everything before the last colon.
pub open spec fn tunnel_host(a: Seq<char>) -> Seq<char> {
    a.take(last_colon_of(a))
}

/// The port value of a valid authority: the digits after the last colon.
pub open spec fn tunnel_port(a: Seq<char>) -> int {
    digits_value(a.skip(last_colon_of(a) + 1))
}

/// A valid authority is well formed at its one last colon, which is what
/// `last_colon_of` picks.
pub proof fn lemma_valid_at_colon(a: Seq<char>, i: int)
    requires
        is_last_colon(a, i),
        valid_authority(a),
    ensures
        authority_ok_at(a, i),
        last_colon_of(a) == i,
{
    let w = choose|w: int| is_last_colon(a, w) && authority_ok_at(a, w);
    lemma_last_colon_unique(a, w, i);
    assert(is_last_colon(a, last_colon_of(a)));
    lemma_last_colon_unique(a, last_colon_of(a), i);
}

/// A resolved tunnel destination: the host to dial and the port to dial
/// it on, extracted from a CONNECT request's authority.
pub struct TunnelTarget {
    pub host: String,
    pub port: u16,
}

impl Clone for TunnelTarget {
    fn clone(&self) -> (r: Self)
        ensures
            r.host@ == self.host@,
            r.port == self.port,
    {
        TunnelTarget { host: self.host.clone(), port: self.port }
    }
}

/// Splits an authority into host and port, exactly when it is a valid
/// `host:port` pair.
pub fn parse_tunnel_target(a: &str) -> (r: Option<TunnelTarget>)
    ensures
        r is Some <==> valid_authority(a@),
        r matches Some(t) ==> t.host@ == tunnel_host(a@) && t.port as int == tunnel_port(a@),
{
    let n = a.unicode_len();
    let oi = find_last_colon(a);
    match oi {
        None => {
            proof {
                if valid_authority(a@) {
                    let w = choose|w: int| is_last_colon(a@, w) && authority_ok_at(a@, w);
                    assert(a@[w] == ':');
                }
            }
            None
        },
        Some(i) => {
            if i < 1 || i + 1 >= n || n - (i + 1) > 5 || !all_digits_from(a, i + 1) {
                proof {
                    if valid_authority(a@) {
                        lemma_valid_at_colon(a@, i as int);
                    }
                }
                None
            } else {
                let ghost p = a@.skip(i + 1);
                let mut k = i + 1;
                let mut value: u32 = 0;
                proof {
                    assert(p.take(0) =~= Seq::<char>::empty());
                }
                while k < n
                    invariant
                        i + 1 <= k <= n,
                        n == a@.len(),
                        n - (i + 1) <= 5,
                        p == a@.skip(i + 1),
                        digits_after(a@, i as int),
                        value == digits_value(p.take(k - (i + 1))),
                        0 <= value < pow10((k - (i + 1)) as nat),
                    decreases n - k,
                {
                    let c = a.get_char(k);
                    proof {
                        assert(is_digit(a@[k as int]));
                        assert(pow10(0) == 1);
                        assert(pow10(1) == 10);
                        assert(pow10(2) == 100);
                        assert(pow10(3) == 1000);
                        assert(pow10(4) == 10000);
                        assert(pow10(5) == 100000);
                        let m = (k - (i + 1)) as int;
                        assert(p.take(m + 1).drop_last() =~= p.take(m));
                        assert(p.take(m + 1).last() == a@[k as int]);
                    }
                    value = value * 10 + (c as u32 - '0' as u32);
                    k = k + 1;
                }
                proof {
                    assert(p.take(n - (i + 1)) =~= p);
                }
                if value > 65535 {
                    proof {
                        if valid_authority(a@) {
                            lemma_valid_at_colon(a@, i as int);
                        }
                    }
                    None
                } else {
                    let host = a.substring_char(0, i).to_owned();
                    proof {
                        assert(is_last_colon(a@, i as int) && authority_ok_at(a@, i as int));
                        lemma_valid_at_colon(a@, i as int);
                        assert(a@.subrange(0, i as int) =~= a@.take(i as int));
                    }
                    Some(TunnelTarget { host, port: value as u16 })
                }
            }
        },
    }
}

} // verus!
