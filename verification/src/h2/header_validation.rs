use vstd::prelude::*;
use crate::text::{chars_of, decimal, push_decimal, str_eq, concat_str};
use crate::unicode::{char_is_uppercase, spec_is_uppercase};

verus! {

/// The largest accepted header block, in bytes.
pub const MAX_HEADER_BLOCK_SIZE: usize = 4096;

/// The largest accepted header field (name, value and 32 bytes of overhead).
pub const MAX_HEADER_FIELD_SIZE: usize = 8192;

/// The UTF-8 length of a string, as `str::len` reports it.
pub open spec fn utf8_len(s: Seq<char>) -> nat {
    (vstd::utf8::encode_utf8(s).len() as usize) as nat
}

/// The RFC 7541 size of a header field: name and value bytes plus 32.
pub open spec fn field_size(name: Seq<char>, value: Seq<char>) -> nat {
    utf8_len(name) + utf8_len(value) + 32
}

/// The outcome of validating a header list.
#[derive(Debug, Clone, PartialEq, Eq)]
pub struct HeaderValidationResult {
    pub valid: bool,
    pub error: Option<String>,
    pub total_size: usize,
    pub field_count: usize,
}

impl HeaderValidationResult {
    /// A valid result with the given totals.
    pub fn valid(total_size: usize, field_count: usize) -> (r: Self)
        ensures
            r.valid && r.error is None && r.total_size == total_size && r.field_count == field_count,
    {
        HeaderValidationResult { valid: true, error: None, total_size, field_count }
    }

    /// An invalid result carrying `error`.
    pub fn invalid(error: String) -> (r: Self)
        ensures
            !r.valid && r.error == Some(error) && r.total_size == 0 && r.field_count == 0,
    {
        HeaderValidationResult { valid: false, error: Some(error), total_size: 0, field_count: 0 }
    }
}

/// HTTP/2 pseudo-headers.
#[derive(Debug, Clone, Copy, PartialEq, Eq, Hash, Structural)]
pub enum PseudoHeader {
    Method,
    Scheme,
    Authority,
    Path,
    Status,
}

impl PseudoHeader {
    /// The header name, with its leading colon.
    pub fn name(&self) -> (r: &'static str)
        ensures
            r@ == match *self {
                PseudoHeader::Method => ":method"@,
                PseudoHeader::Scheme => ":scheme"@,
                PseudoHeader::Authority => ":authority"@,
                PseudoHeader::Path => ":path"@,
                PseudoHeader::Status => ":status"@,
            },
    {
        match self {
            PseudoHeader::Method => ":method",
            PseudoHeader::Scheme => ":scheme",
            PseudoHeader::Authority => ":authority",
            PseudoHeader::Path => ":path",
            PseudoHeader::Status => ":status",
        }
    }

    /// Whether the pseudo-header belongs to requests only.
    pub fn is_request_only(&self) -> (r: bool)
        ensures
            r == (*self != PseudoHeader::Status),
    {
        match self {
            PseudoHeader::Status => false,
            _ => true,
        }
    }

    /// Whether the pseudo-header belongs to responses only.
    pub fn is_response_only(&self) -> (r: bool)
        ensures
            r == (*self == PseudoHeader::Status),
    {
        match self {
            PseudoHeader::Status => true,
            _ => false,
        }
    }
}

/// Whether `name` is one of the five pseudo-header names.
pub open spec fn is_pseudo_name(name: Seq<char>) -> bool {
    name == ":method"@ || name == ":scheme"@ || name == ":authority"@ || name == ":path"@
        || name == ":status"@
}

/// Whether `name` starts with a colon.
pub open spec fn starts_with_colon(name: Seq<char>) -> bool {
    name.len() > 0 && name[0] == ':'
}

/// The message for an oversized header block.
pub open spec fn block_size_message(total: nat) -> Seq<char> {
    "Header block too large: "@ + decimal(total) + " bytes (max: 4096)"@
}

/// Why a single header field is refused, if it is.
pub open spec fn field_error(name: Seq<char>, value: Seq<char>) -> Option<Seq<char>> {
    let size = field_size(name, value);
    if size > 8192 {
        Some("Header field too large: "@ + decimal(size) + " bytes (max: 8192)"@)
    } else if starts_with_colon(name) {
        if !is_pseudo_name(name) { Some("Invalid pseudo-header: "@ + name) } else { None }
    } else if exists|i: int| 0 <= i < name.len() && spec_is_uppercase(#[trigger] name[i]) {
        Some("Header name contains uppercase: "@ + name)
    } else if name.len() == 0 {
        Some("Header name cannot be empty"@)
    } else {
        None
    }
}

/// Validates header blocks and fields.
pub struct HeaderBlockValidator;

/// The first refusal met while scanning `hs` with `acc` bytes already counted: a bad field,
/// or the running size passing 4096.
pub open spec fn scan_error(hs: Seq<(String, String)>, acc: nat) -> Option<Seq<char>>
    decreases hs.len(),
{
    if hs.len() == 0 {
        None
    } else {
        match field_error(hs[0].0@, hs[0].1@) {
            Some(e) => Some(e),
            None => {
                let t = acc + field_size(hs[0].0@, hs[0].1@);
                if t > 4096 { Some(block_size_message(t)) } else { scan_error(hs.drop_first(), t) }
            },
        }
    }
}

/// The total size of all fields.
pub open spec fn total_size(hs: Seq<(String, String)>) -> nat
    decreases hs.len(),
{
    if hs.len() == 0 { 0 } else { total_size(hs.drop_last()) + field_size(hs.last().0@, hs.last().1@) }
}

/// The number of headers named `name`.
pub open spec fn name_count(hs: Seq<(String, String)>, name: Seq<char>) -> nat
    decreases hs.len(),
{
    if hs.len() == 0 {
        0
    } else {
        name_count(hs.drop_last(), name) + if hs.last().0@ == name { 1nat } else { 0nat }
    }
}

/// The message for a repeated pseudo-header.
pub open spec fn duplicate_message(name: Seq<char>, count: nat) -> Seq<char> {
    "Duplicate pseudo-header: "@ + name + " ("@ + decimal(count) + " occurrences)"@
}

/// Each field's size fits in a machine word.
pub open spec fn sizes_fit(hs: Seq<(String, String)>) -> bool {
    forall|i: int| 0 <= i < hs.len() ==> field_size(#[trigger] hs[i].0@, hs[i].1@) <= usize::MAX
}

impl HeaderBlockValidator {
    /// Refuses a header block larger than 4096 bytes.
    pub fn validate_block_size(total_size: usize) -> (r: Result<(), String>)
        ensures
            total_size <= MAX_HEADER_BLOCK_SIZE ==> r is Ok,
            total_size > MAX_HEADER_BLOCK_SIZE ==> r is Err && r->Err_0@ == block_size_message(total_size as nat),
    {
        if total_size > MAX_HEADER_BLOCK_SIZE {
            let mut msg = String::from_str("Header block too large: ");
            push_decimal(&mut msg, total_size as u64);
            msg.append(" bytes (max: 4096)");
            return Err(msg);
        }
        Ok(())
    }

    /// Validates one header field: its size, pseudo-header name, lowercase name, non-empty name.
    pub fn validate_field(name: &str, value: &str) -> (r: Result<(), String>)
        requires
            field_size(name@, value@) <= usize::MAX,
        ensures
            match field_error(name@, value@) {
                Some(e) => r is Err && r->Err_0@ == e,
                None => r is Ok,
            },
    {
        let size = name.len() + value.len() + 32;
        if size > MAX_HEADER_FIELD_SIZE {
            let mut msg = String::from_str("Header field too large: ");
            push_decimal(&mut msg, size as u64);
            msg.append(" bytes (max: 8192)");
            return Err(msg);
        }
        let chars = chars_of(name);
        if chars.len() > 0 && chars[0] == ':' {
            if !Self::is_valid_pseudo_header(name) {
                return Err(concat_str("Invalid pseudo-header: ", name));
            }
        } else {
            let mut i: usize = 0;
            while i < chars.len()
                invariant
                    i <= chars@.len(),
                    chars@ == name@,
                    field_size(name@, value@) <= 8192,
                    !starts_with_colon(name@),
                    forall|j: int| 0 <= j < i ==> !spec_is_uppercase(#[trigger] name@[j]),
                decreases chars@.len() - i,
            {
                if char_is_uppercase(chars[i]) {
                    assert(spec_is_uppercase(name@[i as int]));
                    return Err(concat_str("Header name contains uppercase: ", name));
                }
                i = i + 1;
            }
        }
        if chars.len() == 0 {
            return Err("Header name cannot be empty".to_owned());
        }
        Ok(())
    }

    fn is_valid_pseudo_header(name: &str) -> (r: bool)
        ensures
            r == is_pseudo_name(name@),
    {
        str_eq(name, ":method") || str_eq(name, ":scheme") || str_eq(name, ":authority")
            || str_eq(name, ":path") || str_eq(name, ":status")
    }

    fn count_named(headers: &[(String, String)], name: &str) -> (n: usize)
        ensures
            n == name_count(headers@, name@),
    {
        let mut n: usize = 0;
        let mut i: usize = 0;
        while i < headers.len()
            invariant
                i <= headers@.len(),
                n == name_count(headers@.take(i as int), name@),
                n <= i,
            decreases headers@.len() - i,
        {
            assert(headers@.take(i + 1).drop_last() =~= headers@.take(i as int));
            if str_eq(headers[i].0.as_str(), name) {
                n = n + 1;
            }
            i = i + 1;
        }
        assert(headers@.take(i as int) =~= headers@);
        n
    }

    /// Validates a header list: every field, the running block size, and that no
    /// pseudo-header occurs twice.
    pub fn validate_header_list(headers: &[(String, String)]) -> (r: HeaderValidationResult)
        requires
            sizes_fit(headers@),
        ensures
            match scan_error(headers@, 0) {
                Some(e) => !r.valid && (r.error matches Some(m) && m@ == e) && r.total_size == 0 && r.field_count == 0,
                None => {
                    if exists|i: int| 0 <= i < headers@.len() && starts_with_colon(#[trigger] headers@[i].0@)
                        && name_count(headers@, headers@[i].0@) > 1 {
                        &&& !r.valid
                        &&& r.total_size == 0 && r.field_count == 0
                        &&& exists|i: int| 0 <= i < headers@.len() && starts_with_colon(#[trigger] headers@[i].0@)
                            && name_count(headers@, headers@[i].0@) > 1
                            && (r.error matches Some(m) && m@ == duplicate_message(headers@[i].0@,
                                name_count(headers@, headers@[i].0@)))
                    } else {
                        r == HeaderValidationResult {
                            valid: true,
                            error: None,
                            total_size: total_size(headers@) as usize,
                            field_count: headers@.len() as usize,
                        }
                    }
                },
            },
    {
        let mut total: usize = 0;
        let mut i: usize = 0;
        assert(headers@.skip(0) =~= headers@);
        assert(headers@.take(0) =~= Seq::<(String, String)>::empty());
        while i < headers.len()
            invariant
                i <= headers@.len(),
                sizes_fit(headers@),
                total == total_size(headers@.take(i as int)),
                total <= 4096,
                scan_error(headers@, 0) == scan_error(headers@.skip(i as int), total as nat),
            decreases headers@.len() - i,
        {
            let ghost rest = headers@.skip(i as int);
            assert(rest.drop_first() =~= headers@.skip(i + 1));
            assert(rest[0] == headers@[i as int]);
            assert(headers@.take(i + 1).drop_last() =~= headers@.take(i as int));
            let name = headers[i].0.as_str();
            let value = headers[i].1.as_str();
            assert(field_size(headers@[i as int].0@, headers@[i as int].1@) <= usize::MAX);
            match Self::validate_field(name, value) {
                Err(e) => {
                    return HeaderValidationResult::invalid(e);
                },
                Ok(()) => {},
            }
            total = total + name.len() + value.len() + 32;
            match Self::validate_block_size(total) {
                Err(e) => {
                    return HeaderValidationResult::invalid(e);
                },
                Ok(()) => {},
            }
            i = i + 1;
        }
        assert(headers@.take(i as int) =~= headers@);
        assert(headers@.skip(i as int) =~= Seq::<(String, String)>::empty());
        let mut k: usize = 0;
        while k < headers.len()
            invariant
                k <= headers@.len(),
                scan_error(headers@, 0) is None,
                total == total_size(headers@),
                forall|j: int| 0 <= j < k && starts_with_colon(#[trigger] headers@[j].0@)
                    ==> name_count(headers@, headers@[j].0@) <= 1,
            decreases headers@.len() - k,
        {
            let name = headers[k].0.as_str();
            let cs = chars_of(name);
            if cs.len() > 0 && cs[0] == ':' {
                let n = Self::count_named(headers, name);
                if n > 1 {
                    let mut msg = String::from_str("Duplicate pseudo-header: ");
                    msg.append(name);
                    msg.append(" (");
                    push_decimal(&mut msg, n as u64);
                    msg.append(" occurrences)");
                    return HeaderValidationResult::invalid(msg);
                }
            }
            k = k + 1;
        }
        HeaderValidationResult::valid(total, headers.len())
    }

    /// Validates request pseudo-headers: no duplicates, a known method, an `http`/`https`
    /// scheme, a non-empty path, and (unless the method is CONNECT) all three present.
    pub fn validate_request_headers(headers: &[(String, String)]) -> (r: Result<(), String>)
        ensures
            outcome_matches(r, request_check_from(headers@, false, false, false, false)),
    {
        let mut has_method = false;
        let mut has_scheme = false;
        let mut has_path = false;
        let mut connect = false;
        let mut i: usize = 0;
        assert(headers@.skip(0) =~= headers@);
        while i < headers.len()
            invariant
                i <= headers@.len(),
                request_check_from(headers@, false, false, false, false)
                    == request_check_from(headers@.skip(i as int), has_method, has_scheme, has_path, connect),
            decreases headers@.len() - i,
        {
            let ghost rest = headers@.skip(i as int);
            assert(rest.drop_first() =~= headers@.skip(i + 1));
            assert(rest[0] == headers@[i as int]);
            let name = headers[i].0.as_str();
            let value = headers[i].1.as_str();
            if str_eq(name, ":method") {
                if has_method {
                    return Err("Duplicate :method pseudo-header".to_owned());
                }
                has_method = true;
                if !(str_eq(value, "GET") || str_eq(value, "HEAD") || str_eq(value, "POST")
                    || str_eq(value, "PUT") || str_eq(value, "DELETE") || str_eq(value, "CONNECT")
                    || str_eq(value, "OPTIONS") || str_eq(value, "PATCH")) {
                    return Err(concat_str("Invalid HTTP method: ", value));
                }
                connect = str_eq(value, "CONNECT");
            } else if str_eq(name, ":scheme") {
                if has_scheme {
                    return Err("Duplicate :scheme pseudo-header".to_owned());
                }
                has_scheme = true;
                if !(str_eq(value, "http") || str_eq(value, "https")) {
                    return Err(concat_str("Invalid scheme: ", value));
                }
            } else if str_eq(name, ":path") {
                if has_path {
                    return Err("Duplicate :path pseudo-header".to_owned());
                }
                has_path = true;
                if value.is_empty() {
                    return Err(":path cannot be empty".to_owned());
                }
            }
            i = i + 1;
        }
        if !connect {
            if !has_method {
                return Err("Missing required :method pseudo-header".to_owned());
            }
            if !has_scheme {
                return Err("Missing required :scheme pseudo-header".to_owned());
            }
            if !has_path {
                return Err("Missing required :path pseudo-header".to_owned());
            }
        }
        Ok(())
    }

    /// Validates response pseudo-headers: exactly one `:status` of three ASCII digits
    /// (three bytes), and no other pseudo-header.
    pub fn validate_response_headers(headers: &[(String, String)]) -> (r: Result<(), String>)
        ensures
            outcome_matches(r, response_check_from(headers@, false)),
    {
        let mut has_status = false;
        let mut i: usize = 0;
        assert(headers@.skip(0) =~= headers@);
        while i < headers.len()
            invariant
                i <= headers@.len(),
                response_check_from(headers@, false) == response_check_from(headers@.skip(i as int), has_status),
            decreases headers@.len() - i,
        {
            let ghost rest = headers@.skip(i as int);
            assert(rest.drop_first() =~= headers@.skip(i + 1));
            assert(rest[0] == headers@[i as int]);
            let name = headers[i].0.as_str();
            let value = headers[i].1.as_str();
            if str_eq(name, ":status") {
                if has_status {
                    return Err("Duplicate :status pseudo-header".to_owned());
                }
                has_status = true;
                let all_numeric = all_ascii_digits(value);
                if value.len() != 3 || !all_numeric {
                    return Err(concat_str("Invalid status code: ", value));
                }
                assert(value@ == rest[0].1@);
            } else if starts_with_colon_exec(name) {
                let mut msg = String::from_str("Invalid response pseudo-header: ");
                msg.append(name);
                msg.append(" (request-only)");
                return Err(msg);
            }
            i = i + 1;
        }
        if !has_status {
            return Err("Missing required :status pseudo-header".to_owned());
        }
        Ok(())
    }
}

/// Whether `c` is an ASCII digit.
pub open spec fn is_ascii_digit(c: char) -> bool {
    '0' <= c && c <= '9'
}

fn all_ascii_digits(value: &str) -> (r: bool)
    ensures
        r == (forall|k: int| 0 <= k < value@.len() ==> is_ascii_digit(#[trigger] value@[k])),
{
    let vc = chars_of(value);
    let mut j: usize = 0;
    while j < vc.len()
        invariant
            j <= vc@.len(),
            vc@ == value@,
            forall|k: int| 0 <= k < j ==> is_ascii_digit(#[trigger] value@[k]),
        decreases vc@.len() - j,
    {
        if !('0' <= vc[j] && vc[j] <= '9') {
            assert(!is_ascii_digit(value@[j as int]));
            return false;
        }
        j = j + 1;
    }
    true
}

fn starts_with_colon_exec(s: &str) -> (r: bool)
    ensures
        r == starts_with_colon(s@),
{
    let v = chars_of(s);
    v.len() > 0 && v[0] == ':'
}

/// Whether `r` is `o` once the message is taken by its characters.
pub open spec fn outcome_matches(r: Result<(), String>, o: Result<(), Seq<char>>) -> bool {
    match o {
        Ok(()) => r is Ok,
        Err(m) => r is Err && r->Err_0@ == m,
    }
}

/// Whether `v` is one of the accepted request methods.
pub open spec fn is_known_method(v: Seq<char>) -> bool {
    v == "GET"@ || v == "HEAD"@ || v == "POST"@ || v == "PUT"@ || v == "DELETE"@ || v == "CONNECT"@
        || v == "OPTIONS"@ || v == "PATCH"@
}

/// The outcome of checking request headers `rest`, given what earlier headers provided.
pub open spec fn request_check_from(
    rest: Seq<(String, String)>,
    has_method: bool,
    has_scheme: bool,
    has_path: bool,
    connect: bool,
) -> Result<(), Seq<char>>
    decreases rest.len(),
{
    if rest.len() == 0 {
        if !connect && !has_method {
            Err("Missing required :method pseudo-header"@)
        } else if !connect && !has_scheme {
            Err("Missing required :scheme pseudo-header"@)
        } else if !connect && !has_path {
            Err("Missing required :path pseudo-header"@)
        } else {
            Ok(())
        }
    } else {
        let name = rest[0].0@;
        let value = rest[0].1@;
        if name == ":method"@ {
            if has_method {
                Err("Duplicate :method pseudo-header"@)
            } else if !is_known_method(value) {
                Err("Invalid HTTP method: "@ + value)
            } else {
                request_check_from(rest.drop_first(), true, has_scheme, has_path, value == "CONNECT"@)
            }
        } else if name == ":scheme"@ {
            if has_scheme {
                Err("Duplicate :scheme pseudo-header"@)
            } else if !(value == "http"@ || value == "https"@) {
                Err("Invalid scheme: "@ + value)
            } else {
                request_check_from(rest.drop_first(), has_method, true, has_path, connect)
            }
        } else if name == ":path"@ {
            if has_path {
                Err("Duplicate :path pseudo-header"@)
            } else if value.len() == 0 {
                Err(":path cannot be empty"@)
            } else {
                request_check_from(rest.drop_first(), has_method, has_scheme, true, connect)
            }
        } else {
            request_check_from(rest.drop_first(), has_method, has_scheme, has_path, connect)
        }
    }
}

/// The outcome of checking response headers `rest`, given whether `:status` was seen.
pub open spec fn response_check_from(rest: Seq<(String, String)>, has_status: bool) -> Result<(), Seq<char>>
    decreases rest.len(),
{
    if rest.len() == 0 {
        if !has_status { Err("Missing required :status pseudo-header"@) } else { Ok(()) }
    } else {
        let name = rest[0].0@;
        let value = rest[0].1@;
        if name == ":status"@ {
            if has_status {
                Err("Duplicate :status pseudo-header"@)
            } else if utf8_len(value) != 3
                || !(forall|k: int| 0 <= k < value.len() ==> is_ascii_digit(#[trigger] value[k])) {
                Err("Invalid status code: "@ + value)
            } else {
                response_check_from(rest.drop_first(), true)
            }
        } else if starts_with_colon(name) {
            Err("Invalid response pseudo-header: "@ + name + " (request-only)"@)
        } else {
            response_check_from(rest.drop_first(), has_status)
        }
    }
}

/// The request methods of RFC 9110, Section 9 (with PATCH, RFC 5789).
pub open spec fn standard_methods() -> Seq<Seq<char>> {
    seq!["GET"@, "HEAD"@, "POST"@, "PUT"@, "DELETE"@, "CONNECT"@, "OPTIONS"@, "PATCH"@]
}

/// Request headers `:method m`, `:scheme s`, `:path p` (any scheme `http` or `https`, any
/// non-empty path) are accepted exactly when `m` is one of the standard methods; any other
/// method is refused by name.
pub proof fn lemma_standard_methods_accepted(hs: Seq<(String, String)>)
    requires
        hs.len() == 3,
        hs[0].0@ == ":method"@,
        hs[1].0@ == ":scheme"@,
        hs[1].1@ == "http"@ || hs[1].1@ == "https"@,
        hs[2].0@ == ":path"@,
        hs[2].1@.len() > 0,
    ensures
        standard_methods().contains(hs[0].1@) ==> request_check_from(hs, false, false, false, false) == Ok::<(), Seq<char>>(()),
        !standard_methods().contains(hs[0].1@) ==> request_check_from(hs, false, false, false, false)
            == Err::<(), Seq<char>>("Invalid HTTP method: "@ + hs[0].1@),
{
    reveal_strlit(":method");
    reveal_strlit(":scheme");
    reveal_strlit(":path");
    let m = hs[0].1@;
    let t = standard_methods();
    assert(t.len() == 8);
    assert(is_known_method(m) <==> t.contains(m)) by {
        if is_known_method(m) {
            if m == "GET"@ { assert(t[0] == m); }
            else if m == "HEAD"@ { assert(t[1] == m); }
            else if m == "POST"@ { assert(t[2] == m); }
            else if m == "PUT"@ { assert(t[3] == m); }
            else if m == "DELETE"@ { assert(t[4] == m); }
            else if m == "CONNECT"@ { assert(t[5] == m); }
            else if m == "OPTIONS"@ { assert(t[6] == m); }
            else { assert(t[7] == m); }
        }
        if t.contains(m) {
            let k = choose|k: int| 0 <= k < t.len() && t[k] == m;
            assert(is_known_method(t[k]));
        }
    }
    assert(":scheme"@ != ":method"@) by { assert(":scheme"@[1] != ":method"@[1]); }
    assert(":path"@ != ":method"@) by { assert(":path"@[1] != ":method"@[1]); }
    assert(":path"@ != ":scheme"@) by { assert(":path"@[1] != ":scheme"@[1]); }
    let r1 = hs.drop_first();
    let r2 = r1.drop_first();
    let r3 = r2.drop_first();
    assert(r1[0] == hs[1] && r2[0] == hs[2] && r3.len() == 0);
    if is_known_method(m) {
        let c = m == "CONNECT"@;
        assert(request_check_from(r3, true, true, true, c) == Ok::<(), Seq<char>>(()));
        assert(request_check_from(r2, true, true, false, c) == request_check_from(r3, true, true, true, c));
        assert(request_check_from(r1, true, false, false, c) == request_check_from(r2, true, true, false, c));
    }
}

} // verus!
