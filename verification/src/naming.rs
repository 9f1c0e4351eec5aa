//! Naming conventions of diagnostic databases: which affixes service names carry, how they
//! are trimmed for lookups, and the sanity check of the configured affixes.
use vstd::prelude::*;
use std::collections::HashMap;
use vstd::string::StringSliceAdditionalSpecFns;
use vstd::utf8::{decode_utf8, encode_utf8, is_char_boundary};
use crate::configuration::{AppError, ConfigSanity};
use crate::error::{push_text, text};
use crate::interfaces::DiagnosticServiceAffixPosition;
use crate::number::{parse_unsigned, u8_from_str_radix, u8_parse_error_text};
use crate::text::{
    has_prefix, has_suffix, lemma_boundary_after_two_ascii, lowercase_of, str_ends_with,
    str_starts_with, to_lowercase, trim, trimmed_of,
};

verus! {

broadcast use vstd::std_specs::hash::group_hash_axioms;

/// How the services of a database are named: where affixes stand in short and long names
/// and which affixes there are (lowercase, each of the configured position, compound affixes
/// before their parts), the semantic of the parameter that tells configuration services
/// apart, the functional class of variant coding services, and per service id an affix of
/// that service alone.
#[derive(Clone, Debug)]
pub struct DatabaseNamingConvention {
    pub short_name_affix_position: DiagnosticServiceAffixPosition,
    pub long_name_affix_position: DiagnosticServiceAffixPosition,
    pub configuration_service_parameter_semantic_id: String,
    pub functional_class_varcoding: String,
    pub short_name_affixes: Vec<String>,
    pub long_name_affixes: Vec<String>,
    pub service_affixes: HashMap<u8, (DiagnosticServiceAffixPosition, String)>,
}

/// Whether the affix bytes `a` stand at position `pos` of the bytes `lc`.
pub open spec fn affix_matches(pos: DiagnosticServiceAffixPosition, lc: Seq<u8>, a: Seq<u8>) -> bool {
    match pos {
        DiagnosticServiceAffixPosition::Prefix => has_prefix(lc, a),
        DiagnosticServiceAffixPosition::Suffix => has_suffix(lc, a),
    }
}

/// The index of the first affix of `affixes`, from index `i` on, that stands at `pos` of the
/// bytes `lc`.
pub open spec fn first_affix_match(
    pos: DiagnosticServiceAffixPosition,
    lc: Seq<u8>,
    affixes: Seq<String>,
    i: int,
) -> Option<int>
    decreases affixes.len() - i,
{
    if i < 0 || i >= affixes.len() {
        None
    } else if affix_matches(pos, lc, encode_utf8(affixes[i]@)) {
        Some(i)
    } else {
        first_affix_match(pos, lc, affixes, i + 1)
    }
}

/// The bytes of `name` without `a_len` bytes at `pos`: after a prefix, or before a suffix
/// (none of them when the name is shorter); `None` where the cut falls off the name or inside
/// a character, where std's string slicing panics.
pub open spec fn cut_bytes(pos: DiagnosticServiceAffixPosition, name: Seq<char>, a_len: int) -> Option<
    Seq<u8>,
> {
    let n = encode_utf8(name);
    match pos {
        DiagnosticServiceAffixPosition::Prefix => if a_len <= n.len() && is_char_boundary(n, a_len) {
            Some(n.subrange(a_len, n.len() as int))
        } else {
            None
        },
        DiagnosticServiceAffixPosition::Suffix => {
            let b = if n.len() >= a_len {
                n.len() - a_len
            } else {
                0
            };
            if is_char_boundary(n, b) {
                Some(n.subrange(0, b))
            } else {
                None
            }
        },
    }
}

/// The bytes of `name` trimmed by the first of `affixes` that stands at `pos` of its
/// lowercase `lc`, or all of them when none does; `None` where the cut is no valid slice.
pub open spec fn trimmed_name(
    pos: DiagnosticServiceAffixPosition,
    affixes: Seq<String>,
    name: Seq<char>,
    lc: Seq<char>,
) -> Option<Seq<u8>> {
    match first_affix_match(pos, encode_utf8(lc), affixes, 0) {
        None => Some(encode_utf8(name)),
        Some(i) => cut_bytes(pos, name, encode_utf8(affixes[i]@).len() as int),
    }
}

/// The bytes of `name` trimmed by the affix configured for service `id` in `m` (whether or
/// not the name carries it), or all of them when the service has none.
pub open spec fn service_trimmed_name(
    m: Map<u8, (DiagnosticServiceAffixPosition, String)>,
    id: u8,
    name: Seq<char>,
) -> Option<Seq<u8>> {
    if m.contains_key(id) {
        cut_bytes(m[id].0, name, encode_utf8(m[id].1@).len() as int)
    } else {
        Some(encode_utf8(name))
    }
}

/// Owned copy of the bytes of `name` without `a_len` bytes at `pos`, when that is a valid slice.
fn cut(pos: DiagnosticServiceAffixPosition, name: &str, a_len: usize) -> (r: Option<String>)
    ensures
        match cut_bytes(pos, name@, a_len as int) {
            Some(b) => r matches Some(s) && encode_utf8(s@) == b,
            None => r is None,
        },
{
    let n = name.as_bytes().len();
    match pos {
        DiagnosticServiceAffixPosition::Prefix => {
            if a_len > n || !name.is_char_boundary(a_len) {
                return None;
            }
            let (_, rest) = name.split_at(a_len);
            Some(text(rest))
        },
        DiagnosticServiceAffixPosition::Suffix => {
            let b = if n >= a_len {
                n - a_len
            } else {
                0
            };
            if !name.is_char_boundary(b) {
                return None;
            }
            let (head, _) = name.split_at(b);
            Some(text(head))
        },
    }
}

/// Trims `name` by the first of `affixes` found at `pos` of its lowercase `lc`.
fn trim_by_affixes(
    pos: DiagnosticServiceAffixPosition,
    affixes: &Vec<String>,
    name: &str,
    lc: &str,
) -> (r: Option<String>)
    ensures
        match trimmed_name(pos, affixes@, name@, lc@) {
            Some(b) => r matches Some(s) && encode_utf8(s@) == b,
            None => r is None,
        },
{
    let mut i: usize = 0;
    while i < affixes.len()
        invariant
            i <= affixes@.len(),
            first_affix_match(pos, lc.spec_bytes(), affixes@, 0) == first_affix_match(
                pos,
                lc.spec_bytes(),
                affixes@,
                i as int,
            ),
        decreases affixes@.len() - i,
    {
        let a = affixes[i].as_str();
        let found = match pos {
            DiagnosticServiceAffixPosition::Prefix => str_starts_with(lc, a),
            DiagnosticServiceAffixPosition::Suffix => str_ends_with(lc, a),
        };
        if found {
            return cut(pos, name, a.as_bytes().len());
        }
        i = i + 1;
    }
    Some(text(name))
}

impl DatabaseNamingConvention {
    /// The long name without the first configured affix that its lowercase carries at the
    /// configured position, or the whole name when none does; `None` where the cut would
    /// fall inside a character or off the name.
    pub fn try_trim_long_name_affixes(&self, long_name: &str) -> (r: Option<String>)
        ensures
            match trimmed_name(
                self.long_name_affix_position,
                self.long_name_affixes@,
                long_name@,
                lowercase_of(long_name@),
            ) {
                Some(b) => r matches Some(s) && encode_utf8(s@) == b,
                None => r is None,
            },
    {
        let lc = to_lowercase(long_name);
        match trim_by_affixes(
            self.long_name_affix_position,
            &self.long_name_affixes,
            long_name,
            lc.as_str(),
        ) {
            Some(_) => Some(self.trim_long_name_affixes(long_name)),
            None => None,
        }
    }

    /// The long name without the first configured affix that its lowercase carries at the
    /// configured position (affixes are lowercase), or the whole name when none does.
    pub fn trim_long_name_affixes(&self, long_name: &str) -> (r: String)
        requires
            trimmed_name(
                self.long_name_affix_position,
                self.long_name_affixes@,
                long_name@,
                lowercase_of(long_name@),
            ) is Some,
        ensures
            Some(encode_utf8(r@)) == trimmed_name(
                self.long_name_affix_position,
                self.long_name_affixes@,
                long_name@,
                lowercase_of(long_name@),
            ),
    {
        let lc = to_lowercase(long_name);
        match trim_by_affixes(
            self.long_name_affix_position,
            &self.long_name_affixes,
            long_name,
            lc.as_str(),
        ) {
            Some(s) => s,
            None => {
                proof {
                    assert(false);
                }
                String::new()
            },
        }
    }

    /// The short name without the first configured affix that its lowercase carries at the
    /// configured position, or the whole name when none does; `None` where the cut would
    /// fall inside a character or off the name.
    pub fn try_trim_short_name_affixes(&self, short_name: &str) -> (r: Option<String>)
        ensures
            match trimmed_name(
                self.short_name_affix_position,
                self.short_name_affixes@,
                short_name@,
                lowercase_of(short_name@),
            ) {
                Some(b) => r matches Some(s) && encode_utf8(s@) == b,
                None => r is None,
            },
    {
        let lc = to_lowercase(short_name);
        match trim_by_affixes(
            self.short_name_affix_position,
            &self.short_name_affixes,
            short_name,
            lc.as_str(),
        ) {
            Some(_) => Some(self.trim_short_name_affixes(short_name)),
            None => None,
        }
    }

    /// The short name without the first configured affix that its lowercase carries at the
    /// configured position (affixes are lowercase), or the whole name when none does.
    pub fn trim_short_name_affixes(&self, short_name: &str) -> (r: String)
        requires
            trimmed_name(
                self.short_name_affix_position,
                self.short_name_affixes@,
                short_name@,
                lowercase_of(short_name@),
            ) is Some,
        ensures
            Some(encode_utf8(r@)) == trimmed_name(
                self.short_name_affix_position,
                self.short_name_affixes@,
                short_name@,
                lowercase_of(short_name@),
            ),
    {
        let lc = to_lowercase(short_name);
        match trim_by_affixes(
            self.short_name_affix_position,
            &self.short_name_affixes,
            short_name,
            lc.as_str(),
        ) {
            Some(s) => s,
            None => {
                proof {
                    assert(false);
                }
                String::new()
            },
        }
    }

    /// The short name without as many bytes as the affix configured for `service_id` has, at
    /// its position, or the name itself when the service has none; `None` where the cut
    /// would fall inside a character or off the name.
    pub fn try_trim_service_name_affixes(&self, service_id: u8, short_name: String) -> (r: Option<
        String,
    >)
        ensures
            match service_trimmed_name(self.service_affixes@, service_id, short_name@) {
                Some(b) => r matches Some(s) && encode_utf8(s@) == b,
                None => r is None,
            },
    {
        match self.service_affixes.get(&service_id) {
            Some(entry) => cut(entry.0, short_name.as_str(), entry.1.as_str().as_bytes().len()),
            None => Some(short_name),
        }
    }

    /// The short name without as many bytes as the affix configured for `service_id` has, at
    /// its position, or the name itself when the service has none.
    pub fn trim_service_name_affixes(&self, service_id: u8, short_name: String) -> (r: String)
        requires
            service_trimmed_name(self.service_affixes@, service_id, short_name@) is Some,
        ensures
            Some(encode_utf8(r@)) == service_trimmed_name(
                self.service_affixes@,
                service_id,
                short_name@,
            ),
    {
        match self.try_trim_service_name_affixes(service_id, short_name) {
            Some(s) => s,
            None => {
                proof {
                    assert(false);
                }
                String::new()
            },
        }
    }
}

/// The message of a service affix key that is no number of a byte: the trimmed key and the
/// parser's error.
pub open spec fn key_error_message(key: Seq<char>, error: Seq<char>) -> Seq<char> {
    "Invalid hex number: "@ + key + ", error="@ + error
}

/// What a trimmed service affix key `s` whose lowercase is `lower` stands for: when the
/// lowercase begins with `0x`, the hex number after it, else `s` as a decimal number; when
/// that is no number of a byte, the message naming `s` and the parser's error.
pub open spec fn trimmed_key_value(s: Seq<char>, lower: Seq<char>) -> Result<u8, Seq<char>> {
    let lb = encode_utf8(lower);
    if has_prefix(lb, seq![0x30u8, 0x78u8]) {
        let hex = lb.subrange(2, lb.len() as int);
        match parse_unsigned(hex, 16, 255) {
            Some(v) => Ok(v as u8),
            None => Err(key_error_message(s, u8_parse_error_text(decode_utf8(hex), 16))),
        }
    } else {
        match parse_unsigned(encode_utf8(s), 10, 255) {
            Some(v) => Ok(v as u8),
            None => Err(key_error_message(s, u8_parse_error_text(s, 10))),
        }
    }
}

/// What a key of the service affix map stands for: the key without surrounding whitespace,
/// read as `trimmed_key_value` reads it with its lowercase.
pub open spec fn key_value(key: Seq<char>) -> Result<u8, Seq<char>> {
    trimmed_key_value(trimmed_of(key), lowercase_of(trimmed_of(key)))
}

/// The service id the trimmed key `trimmed` with lowercase `lower` stands for: the hex
/// number after a leading `0x` of the lowercase, else the decimal number of the key; fails
/// with a message naming the key and the parser's error when it is no number of a byte.
pub fn normalize_trimmed_key(trimmed: &str, lower: &str) -> (r: Result<u8, String>)
    ensures
        match trimmed_key_value(trimmed@, lower@) {
            Ok(v) => r == Ok::<u8, String>(v),
            Err(m) => r matches Err(e) && e@ == m,
        },
{
    let lb = lower.as_bytes();
    proof {
        assert(lb@ == encode_utf8(lower@));
        vstd::utf8::encode_utf8_valid_utf8(lower@);
    }
    let parsed = if lb.len() >= 2 && lb[0] == 0x30 && lb[1] == 0x78 {
        proof {
            assert(lb@.subrange(0, 2) =~= seq![0x30u8, 0x78u8]);
            lemma_boundary_after_two_ascii(lb@);
        }
        let (_, hex) = lower.split_at(2);
        proof {
            assert(hex.spec_bytes() == encode_utf8(hex@));
            vstd::utf8::encode_utf8_decode_utf8(hex@);
        }
        u8_from_str_radix(hex, 16)
    } else {
        proof {
            if has_prefix(lb@, seq![0x30u8, 0x78u8]) {
                assert(lb@.subrange(0, 2)[0] == lb@[0]);
                assert(lb@.subrange(0, 2)[1] == lb@[1]);
            }
            assert(trimmed.spec_bytes() == encode_utf8(trimmed@));
        }
        u8_from_str_radix(trimmed, 10)
    };
    match parsed {
        Ok(v) => Ok(v),
        Err(e) => {
            let mut m = String::new();
            push_text(&mut m, "Invalid hex number: ");
            push_text(&mut m, trimmed);
            push_text(&mut m, ", error=");
            push_text(&mut m, e.as_str());
            Err(m)
        },
    }
}

/// The service id a key of the service affix map stands for (keys are strings in the
/// configuration file): the key without surrounding whitespace, as a hex number after `0x`
/// (either case) or else as a decimal number; fails with a message naming the trimmed key
/// and the parser's error when it is no number of a byte.
pub fn normalize_key(key: &str) -> (r: Result<u8, String>)
    ensures
        match key_value(key@) {
            Ok(v) => r == Ok::<u8, String>(v),
            Err(m) => r matches Err(e) && e@ == m,
        },
{
    let trimmed = trim(key);
    let lower = to_lowercase(trimmed);
    normalize_trimmed_key(trimmed, lower.as_str())
}

/// The short name affixes of the default convention.
pub open spec fn default_short_name_affixes() -> Seq<Seq<char>> {
    seq![
        "_read"@,
        "_write"@,
        "_read_dump"@,
        "_write_dump"@,
        "_dump"@,
        "_read_func"@,
        "_write_func"@,
        "_read_dump_func"@,
        "_write_dump_func"@,
        "_dump_func"@,
        "_control_func"@,
        "_control"@,
    ]
}

/// The long name affixes of the default convention.
pub open spec fn default_long_name_affixes() -> Seq<Seq<char>> {
    seq![
        " read"@,
        " write"@,
        " read dump"@,
        " write dump"@,
        " dump"@,
        " read func"@,
        " write func"@,
        " read dump func"@,
        " write dump func"@,
        " dump func"@,
        " control func"@,
        " control"@,
    ]
}

/// The texts of `v`.
pub open spec fn texts(v: Seq<String>) -> Seq<Seq<char>> {
    Seq::new(v.len(), |i: int| v[i]@)
}

fn strings(items: &[&str]) -> (r: Vec<String>)
    ensures
        texts(r@) == Seq::new(items@.len(), |i: int| items@[i]@),
{
    let mut r: Vec<String> = Vec::new();
    let mut i: usize = 0;
    while i < items.len()
        invariant
            i <= items@.len(),
            r@.len() == i,
            forall|j: int| 0 <= j < i ==> #[trigger] r@[j]@ == items@[j]@,
        decreases items@.len() - i,
    {
        r.push(text(items[i]));
        i = i + 1;
    }
    assert(texts(r@) =~= Seq::new(items@.len(), |i: int| items@[i]@));
    r
}

/// Whether `r` is the default naming convention: suffixed short and long names with the
/// default affixes, semantic `ID`, functional class `varcoding`, and the DTC setting service
/// prefixed with `DTC_Setting_Mode_`.
pub open spec fn naming_defaults(r: DatabaseNamingConvention) -> bool {
    &&& r.short_name_affix_position == DiagnosticServiceAffixPosition::Suffix
    &&& r.long_name_affix_position == DiagnosticServiceAffixPosition::Suffix
    &&& r.configuration_service_parameter_semantic_id@ == "ID"@
    &&& r.functional_class_varcoding@ == "varcoding"@
    &&& texts(r.short_name_affixes@) == default_short_name_affixes()
    &&& texts(r.long_name_affixes@) == default_long_name_affixes()
    &&& r.service_affixes@.dom() == set![0x85u8]
    &&& r.service_affixes@[0x85u8].0 == DiagnosticServiceAffixPosition::Prefix
    &&& r.service_affixes@[0x85u8].1@ == "DTC_Setting_Mode_"@
}

impl Default for DatabaseNamingConvention {
    /// Suffixed short and long names: `_read`, `_write`, `_dump` and their compounds, the
    /// `_func` and `_control` forms, and the same words after a space in long names;
    /// configuration services told apart by the parameter of semantic `ID`; variant coding
    /// services of functional class `varcoding`; and DTC setting services (`0x85`) named
    /// with the prefix `DTC_Setting_Mode_`.
    fn default() -> (r: DatabaseNamingConvention)
        ensures
            naming_defaults(r),
    {
        let short_items: [&str; 12] = [
            "_read",
            "_write",
            "_read_dump",
            "_write_dump",
            "_dump",
            "_read_func",
            "_write_func",
            "_read_dump_func",
            "_write_dump_func",
            "_dump_func",
            "_control_func",
            "_control",
        ];
        let long_items: [&str; 12] = [
            " read",
            " write",
            " read dump",
            " write dump",
            " dump",
            " read func",
            " write func",
            " read dump func",
            " write dump func",
            " dump func",
            " control func",
            " control",
        ];
        let short_name_affixes = strings(&short_items);
        let long_name_affixes = strings(&long_items);
        assert(Seq::new(short_items@.len(), |i: int| short_items@[i]@)
            =~= default_short_name_affixes());
        assert(Seq::new(long_items@.len(), |i: int| long_items@[i]@) =~= default_long_name_affixes());
        let mut service_affixes: HashMap<u8, (DiagnosticServiceAffixPosition, String)> =
            HashMap::new();
        service_affixes.insert(
            crate::interfaces::service_ids::CONTROL_DTC_SETTING,
            (DiagnosticServiceAffixPosition::Prefix, text("DTC_Setting_Mode_")),
        );
        assert(service_affixes@.dom() =~= set![0x85u8]);
        DatabaseNamingConvention {
            short_name_affix_position: DiagnosticServiceAffixPosition::Suffix,
            long_name_affix_position: DiagnosticServiceAffixPosition::Suffix,
            configuration_service_parameter_semantic_id: text("ID"),
            functional_class_varcoding: text("varcoding"),
            short_name_affixes,
            long_name_affixes,
            service_affixes,
        }
    }
}

/// The key under which short name affixes are configured.
pub open spec fn short_name_affix_key() -> Seq<char> {
    "database_naming_convention.short_name_affixes"@
}

/// The key under which long name affixes are configured.
pub open spec fn long_name_affix_key() -> Seq<char> {
    "database_naming_convention.long_name_affixes"@
}

/// The key under which service affixes are configured.
pub open spec fn service_name_affix_key() -> Seq<char> {
    "database_naming_convention.service_name_affixes"@
}

/// Whether an affix (its UTF-8 bytes) has whitespace where it joins the rest of a name: a
/// prefix that starts with a space, a suffix that ends with one.
pub open spec fn affix_flawed(pos: DiagnosticServiceAffixPosition, a: Seq<u8>) -> bool {
    match pos {
        DiagnosticServiceAffixPosition::Prefix => a.len() > 0 && a[0] == 0x20,
        DiagnosticServiceAffixPosition::Suffix => a.len() > 0 && a[a.len() - 1] == 0x20,
    }
}

/// The message about a flawed affix under a configuration key.
pub open spec fn flaw_message(key: Seq<char>, affix: Seq<char>, pos: DiagnosticServiceAffixPosition) -> Seq<
    char,
> {
    key + ": '"@ + affix + "' has "@ + match pos {
        DiagnosticServiceAffixPosition::Prefix => "leading whitespace"@,
        DiagnosticServiceAffixPosition::Suffix => "trailing whitespace"@,
    }
}

/// The index of the first flawed affix of `affixes` from index `i` on.
pub open spec fn first_flawed(pos: DiagnosticServiceAffixPosition, affixes: Seq<String>, i: int) -> Option<
    int,
>
    decreases affixes.len() - i,
{
    if i < 0 || i >= affixes.len() {
        None
    } else if affix_flawed(pos, encode_utf8(affixes[i]@)) {
        Some(i)
    } else {
        first_flawed(pos, affixes, i + 1)
    }
}

/// The smallest service id from `k` on whose configured affix is flawed.
pub open spec fn first_flawed_service(m: Map<u8, (DiagnosticServiceAffixPosition, String)>, k: int) -> Option<
    u8,
>
    decreases 256 - k,
{
    if k < 0 || k >= 256 {
        None
    } else if m.contains_key(k as u8) && affix_flawed(m[k as u8].0, encode_utf8(m[k as u8].1@)) {
        Some(k as u8)
    } else {
        first_flawed_service(m, k + 1)
    }
}

/// The message of the first flaw of a convention: in its short name affixes, else in its
/// long name affixes, else in the affix of the smallest service id; `None` when it has none.
pub open spec fn naming_flaw(c: DatabaseNamingConvention) -> Option<Seq<char>> {
    match first_flawed(c.short_name_affix_position, c.short_name_affixes@, 0) {
        Some(i) => Some(
            flaw_message(short_name_affix_key(), c.short_name_affixes@[i]@, c.short_name_affix_position),
        ),
        None => match first_flawed(c.long_name_affix_position, c.long_name_affixes@, 0) {
            Some(i) => Some(
                flaw_message(
                    long_name_affix_key(),
                    c.long_name_affixes@[i]@,
                    c.long_name_affix_position,
                ),
            ),
            None => match first_flawed_service(c.service_affixes@, 0) {
                Some(k) => Some(
                    flaw_message(
                        service_name_affix_key(),
                        c.service_affixes@[k].1@,
                        c.service_affixes@[k].0,
                    ),
                ),
                None => None,
            },
        },
    }
}

fn check_affix(affix: &str, pos: DiagnosticServiceAffixPosition, key: &str) -> (r: Result<(), AppError>)
    ensures
        affix_flawed(pos, affix.spec_bytes()) ==> (r matches Err(AppError::ConfigurationError(m))
            && m@ == flaw_message(key@, affix@, pos)),
        !affix_flawed(pos, affix.spec_bytes()) ==> r is Ok,
{
    let b = affix.as_bytes();
    let n = b.len();
    let flawed = match pos {
        DiagnosticServiceAffixPosition::Prefix => n > 0 && b[0] == 0x20,
        DiagnosticServiceAffixPosition::Suffix => n > 0 && b[n - 1] == 0x20,
    };
    if flawed {
        let mut m = String::new();
        push_text(&mut m, key);
        push_text(&mut m, ": '");
        push_text(&mut m, affix);
        push_text(&mut m, "' has ");
        match pos {
            DiagnosticServiceAffixPosition::Prefix => push_text(&mut m, "leading whitespace"),
            DiagnosticServiceAffixPosition::Suffix => push_text(&mut m, "trailing whitespace"),
        }
        proof {
            assert(m@ =~= flaw_message(key@, affix@, pos));
        }
        return Err(AppError::ConfigurationError(m));
    }
    Ok(())
}

fn check_affixes(affixes: &Vec<String>, pos: DiagnosticServiceAffixPosition, key: &str) -> (r: Result<
    (),
    AppError,
>)
    ensures
        match first_flawed(pos, affixes@, 0) {
            Some(i) => r matches Err(AppError::ConfigurationError(m)) && m@ == flaw_message(
                key@,
                affixes@[i]@,
                pos,
            ),
            None => r is Ok,
        },
{
    let mut i: usize = 0;
    while i < affixes.len()
        invariant
            i <= affixes@.len(),
            first_flawed(pos, affixes@, 0) == first_flawed(pos, affixes@, i as int),
        decreases affixes@.len() - i,
    {
        match check_affix(affixes[i].as_str(), pos, key) {
            Ok(()) => {},
            Err(e) => {
                return Err(e);
            },
        }
        i = i + 1;
    }
    Ok(())
}

impl ConfigSanity for DatabaseNamingConvention {
    /// Checks that no prefix starts and no suffix ends with a space, first the short name
    /// affixes in order, then the long name affixes, then the service affixes by service id;
    /// fails with a configuration error naming the configuration key and the first flawed
    /// affix.
    fn validate_sanity(&self) -> (r: Result<(), AppError>)
        ensures
            match naming_flaw(*self) {
                Some(msg) => r matches Err(AppError::ConfigurationError(m)) && m@ == msg,
                None => r is Ok,
            },
    {
        match check_affixes(
            &self.short_name_affixes,
            self.short_name_affix_position,
            "database_naming_convention.short_name_affixes",
        ) {
            Ok(()) => {},
            Err(e) => {
                return Err(e);
            },
        }
        match check_affixes(
            &self.long_name_affixes,
            self.long_name_affix_position,
            "database_naming_convention.long_name_affixes",
        ) {
            Ok(()) => {},
            Err(e) => {
                return Err(e);
            },
        }
        let mut k: u16 = 0;
        while k < 256
            invariant
                k <= 256,
                first_flawed(self.short_name_affix_position, self.short_name_affixes@, 0) is None,
                first_flawed(self.long_name_affix_position, self.long_name_affixes@, 0) is None,
                first_flawed_service(self.service_affixes@, 0) == first_flawed_service(
                    self.service_affixes@,
                    k as int,
                ),
            decreases 256 - k,
        {
            let id = k as u8;
            match self.service_affixes.get(&id) {
                Some(entry) => {
                    match check_affix(
                        entry.1.as_str(),
                        entry.0,
                        "database_naming_convention.service_name_affixes",
                    ) {
                        Ok(()) => {},
                        Err(e) => {
                            return Err(e);
                        },
                    }
                },
                None => {},
            }
            k = k + 1;
        }
        Ok(())
    }
}

} // verus!
