use vstd::prelude::*;

verus! {

// ---------------------------------------------------------------------------
// Application configuration.
//
// The surrounding process reads the environment; the rules for turning the
// optional raw values into a configuration live here: an unset or
// unparseable port falls back to the default port, an unset directory to
// the default tasks directory.
// ---------------------------------------------------------------------------

/// The port the server listens on when none is configured.
pub const APP_PORT: u16 = 4242;

pub struct AppConfig {
    pub app_name: String,
    pub port: u16,
    pub tasks_directory: String,
}

/// A decimal digit.
pub open spec fn is_digit(c: char) -> bool {
    '0' as u32 <= c as u32 && c as u32 <= '9' as u32
}

/// The value of a decimal digit.
pub open spec fn digit_val(c: char) -> int {
    c as u32 - '0' as u32
}

/// Every character is a decimal digit.
pub open spec fn all_digits(s: Seq<char>) -> bool {
    forall|i: int| 0 <= i < s.len() ==> is_digit(s[i])
}

/// The value of a digit string read in base ten.
pub open spec fn dec_val(s: Seq<char>) -> int
    decreases s.len(),
{
    if s.len() == 0 {
        0
    } else {
        dec_val(s.drop_last()) * 10 + digit_val(s.last())
    }
}

/// A digit string's value is non-negative and no prefix exceeds it.
proof fn lemma_dec_val_prefix(s: Seq<char>, k: int)
    requires
        0 <= k <= s.len(),
        all_digits(s),
    ensures
        dec_val(s) >= 0,
        dec_val(s.take(k)) <= dec_val(s),
    decreases s.len(),
{
    if s.len() == 0 {
        assert(s.take(k) =~= s);
    } else if k == s.len() {
        assert(s.take(k) =~= s);
        assert(all_digits(s.drop_last()));
        lemma_dec_val_prefix(s.drop_last(), 0);
    } else {
        assert(all_digits(s.drop_last()));
        lemma_dec_val_prefix(s.drop_last(), k);
        assert(s.drop_last().take(k) =~= s.take(k));
    }
}

/// How a decimal port number is read: an optional leading plus sign, then
/// digits only, rejecting the empty body and values beyond the largest port.
pub open spec fn spec_parse_u16(s: Seq<char>) -> Option<u16> {
    let body = if s.len() > 0 && s[0] == '+' {
        s.skip(1)
    } else {
        s
    };
    if body.len() == 0 || !all_digits(body) {
        None
    } else if dec_val(body) > u16::MAX {
        None
    } else {
        Some(dec_val(body) as u16)
    }
}

/// Reads a decimal port number from text.
pub fn parse_u16(s: &str) -> (r: Option<u16>)
    ensures
        r == spec_parse_u16(s@),
{
    let len = s.unicode_len();
    let mut i: usize = 0;
    if len > 0 && s.get_char(0) == '+' {
        i = 1;
    }
    let ghost start = i as int;
    let ghost body = s@.skip(start);
    proof {
        assert(body =~= (if s@.len() > 0 && s@[0] == '+' {
            s@.skip(1)
        } else {
            s@
        }));
    }
    if i == len {
        return None;
    }
    let mut acc: u32 = 0;
    while i < len
        invariant
            0 <= start <= i <= len,
            len == s@.len(),
            body == s@.skip(start),
            body == (if s@.len() > 0 && s@[0] == '+' {
                s@.skip(1)
            } else {
                s@
            }),
            body.len() == len - start,
            all_digits(body.take(i - start)),
            acc == dec_val(body.take(i - start)),
            acc <= 0xffff,
        decreases len - i,
    {
        let c = s.get_char(i);
        proof {
            assert(body[i - start] == s@.subrange(start, s@.len() as int)[i - start]);
            assert(body[i - start] == s@[i as int]);
            assert(body.take(i - start + 1).drop_last() =~= body.take(i - start));
            assert(body.take(i - start + 1).last() == body[i - start]);
        }
        if !((c as u32) >= ('0' as u32) && (c as u32) <= ('9' as u32)) {
            proof {
                assert(!is_digit(body[i - start]));
            }
            return None;
        }
        let d: u32 = (c as u32) - ('0' as u32);
        let next: u32 = acc * 10 + d;
        if next > 0xffff {
            proof {
                if all_digits(body) {
                    lemma_dec_val_prefix(body, i - start + 1);
                    assert(dec_val(body) >= dec_val(body.take(i - start + 1)));
                }
            }
            return None;
        }
        acc = next;
        i = i + 1;
    }
    proof {
        assert(body.take(len - start) =~= body);
    }
    Some(acc as u16)
}

/// The resolved port: the parsed configured value, else the default.
pub open spec fn spec_resolved_port(v: Option<Seq<char>>) -> int {
    match v {
        None => APP_PORT as int,
        Some(s) => match spec_parse_u16(s) {
            Some(p) => p as int,
            None => APP_PORT as int,
        },
    }
}

impl AppConfig {
    /// The configuration decided from the optional raw environment values.
    pub fn resolve(port_var: Option<String>, tasks_dir_var: Option<String>) -> (r: AppConfig)
        ensures
            r.app_name@ == "Woodhouse"@,
            r.port as int == spec_resolved_port(port_var.deep_view()),
            r.tasks_directory@ == (match tasks_dir_var {
                Some(d) => d@,
                None => "tasks"@,
            }),
    {
        let port = match &port_var {
            None => APP_PORT,
            Some(s) => match parse_u16(s.as_str()) {
                Some(p) => p,
                None => APP_PORT,
            },
        };
        let tasks_directory = match tasks_dir_var {
            Some(d) => d,
            None => "tasks".to_owned(),
        };
        AppConfig { app_name: "Woodhouse".to_owned(), port, tasks_directory }
    }
}

/// The directory tasks are loaded from when none is configured.
pub fn default_tasks_directory() -> (r: String)
    ensures
        r@ == "tasks"@,
{
    "tasks".to_owned()
}

} // verus!
