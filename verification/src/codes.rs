//! The rules for declaring error codes: a three-digit prefix per enum, a
//! five-digit number per variant, the attributes a variant may carry, codes
//! unique within an enum, and the identifiers generated for each variant.
use crate::text::{chars_of, push_char, str_eq};
use vstd::prelude::*;
use vstd::string::{StrSliceExecFns, StringExecFns};

verus! {

/// `c` is an ASCII decimal digit.
pub open spec fn is_digit(c: char) -> bool {
    '0' <= c && c <= '9'
}

/// `s` has exactly `len` characters, all ASCII decimal digits.
pub open spec fn numeric_with_len(s: Seq<char>, len: nat) -> bool {
    s.len() == len && forall|i: int| 0 <= i < s.len() ==> is_digit(#[trigger] s[i])
}

/// Whether `s` is exactly `len` ASCII digits.
pub fn is_numeric_with_len(s: &str, len: usize) -> (r: bool)
    ensures
        r == numeric_with_len(s@, len as nat),
{
    let chars = chars_of(s);
    if chars.len() != len {
        return false;
    }
    let mut i: usize = 0;
    while i < chars.len()
        invariant
            chars@ == s@,
            i <= chars@.len(),
            forall|j: int| 0 <= j < i ==> is_digit(#[trigger] chars@[j]),
        decreases chars@.len() - i,
    {
        if !('0' <= chars[i] && chars[i] <= '9') {
            return false;
        }
        i = i + 1;
    }
    true
}

/// `c` is an ASCII letter or digit.
pub open spec fn is_ascii_alnum(c: char) -> bool {
    is_digit(c) || ('a' <= c && c <= 'z') || ('A' <= c && c <= 'Z')
}

/// The character an identifier part keeps for `c`: an ASCII letter or digit in
/// upper case, anything else as `_`.
pub open spec fn ident_char(c: char) -> char {
    if 'a' <= c && c <= 'z' {
        ((c as int) - 32) as char
    } else if is_ascii_alnum(c) {
        c
    } else {
        '_'
    }
}

/// `s` without every leading `r#` (raw identifier) prefix.
pub open spec fn strip_raw_prefix(s: Seq<char>) -> Seq<char>
    decreases s.len(),
{
    if s.len() >= 2 && s[0] == 'r' && s[1] == '#' {
        strip_raw_prefix(s.skip(2))
    } else {
        s
    }
}

/// The identifier part made from the name `s`.
pub open spec fn sanitized(s: Seq<char>) -> Seq<char> {
    strip_raw_prefix(s).map_values(|c: char| ident_char(c))
}

/// Makes a name usable inside a generated identifier: leading `r#` prefixes
/// are dropped, ASCII letters are upper-cased, and every character that is not
/// an ASCII letter or digit becomes `_`.
pub fn sanitize_ident_part(value: &str) -> (r: String)
    ensures
        r@ == sanitized(value@),
{
    let chars = chars_of(value);
    let n = chars.len();
    let mut start: usize = 0;
    assert(chars@.skip(0) =~= value@);
    while n - start >= 2 && chars[start] == 'r' && chars[start + 1] == '#'
        invariant
            chars@ == value@,
            n == chars@.len(),
            start <= n,
            strip_raw_prefix(chars@.skip(start as int)) == strip_raw_prefix(value@),
        decreases n - start,
    {
        assert(chars@.skip(start as int).skip(2) =~= chars@.skip(start + 2));
        start = start + 2;
    }
    let ghost rest = chars@.skip(start as int);
    assert(strip_raw_prefix(rest) == rest);
    let mut out = String::new();
    let mut i: usize = start;
    while i < n
        invariant
            n == chars@.len(),
            start <= i <= n,
            rest == chars@.skip(start as int),
            out@ =~= rest.take(i - start).map_values(|c: char| ident_char(c)),
        decreases n - i,
    {
        let c = chars[i];
        let mapped = if 'a' <= c && c <= 'z' {
            ((c as u8) - 32) as char
        } else if ('0' <= c && c <= '9') || ('A' <= c && c <= 'Z') {
            c
        } else {
            '_'
        };
        assert(mapped == ident_char(c));
        push_char(&mut out, mapped);
        assert(rest.take(i + 1 - start) =~= rest.take(i - start).push(c));
        i = i + 1;
    }
    assert(rest.take(n - start) =~= rest);
    out
}

/// The two kinds of error enums: rendered from a template, or with a fixed message.
#[derive(Debug, Clone, Copy, PartialEq, Eq, Structural)]
pub enum VariantKind {
    /// `fmt_err`: each variant carries `err_code` and `err_tpl`.
    Fmt,
    /// `raw_err`: each variant carries `err_code` and `err_msg`.
    Raw,
}

/// The attribute key that holds a variant's text for each kind.
pub open spec fn text_key(kind: VariantKind) -> Seq<char> {
    match kind {
        VariantKind::Fmt => "err_tpl"@,
        VariantKind::Raw => "err_msg"@,
    }
}

impl VariantKind {
    /// The attribute key of the variant's text: `err_tpl` or `err_msg`.
    pub fn text_key(&self) -> (r: &'static str)
        ensures
            r@ == text_key(*self),
    {
        match self {
            VariantKind::Fmt => "err_tpl",
            VariantKind::Raw => "err_msg",
        }
    }
}

/// Why an error enum's declaration is refused.
#[derive(Debug)]
pub enum DeclError {
    /// The enum has no `err_code_prefix`.
    MissingPrefix,
    /// The enum's `err_code_prefix` is not three digits.
    BadPrefix,
    /// A variant attribute other than `err_code` and the kind's text key.
    UnknownAttribute { ident: String, kind: VariantKind },
    /// A variant has no (or an empty) `err_code`.
    MissingCode,
    /// A variant's `err_code` is not five digits.
    BadCode,
    /// A variant has no text (`err_tpl` or `err_msg`).
    MissingText { kind: VariantKind },
    /// Two variants of one enum have the same full code.
    DuplicateCode { err_code: String, first_variant: String },
    /// A variant's attributes could not be read past some point (a malformed
    /// attribute, or one that belongs on the enum).
    Malformed,
}

/// A declaration error as plain values.
pub enum DeclFailure {
    MissingPrefix,
    BadPrefix,
    UnknownAttribute(Seq<char>, VariantKind),
    MissingCode,
    BadCode,
    MissingText(VariantKind),
    DuplicateCode(Seq<char>, Seq<char>),
    Malformed,
}

impl DeclError {
    pub open spec fn failure(&self) -> DeclFailure {
        match self {
            DeclError::MissingPrefix => DeclFailure::MissingPrefix,
            DeclError::BadPrefix => DeclFailure::BadPrefix,
            DeclError::UnknownAttribute { ident, kind } => DeclFailure::UnknownAttribute(ident@, *kind),
            DeclError::MissingCode => DeclFailure::MissingCode,
            DeclError::BadCode => DeclFailure::BadCode,
            DeclError::MissingText { kind } => DeclFailure::MissingText(*kind),
            DeclError::DuplicateCode { err_code, first_variant } => DeclFailure::DuplicateCode(err_code@, first_variant@),
            DeclError::Malformed => DeclFailure::Malformed,
        }
    }
}

/// The message of a declaration error.
pub open spec fn decl_message(e: DeclError) -> Seq<char> {
    match e {
        DeclError::MissingPrefix => "`err_code_prefix` attribute is required on the enum"@,
        DeclError::BadPrefix => "`err_code_prefix` must be exactly 3 digits, e.g. \"001\""@,
        DeclError::UnknownAttribute { ident, kind } => "unknown attribute `"@ + ident@ + "`, expected `err_code` or `"@
            + text_key(kind) + "`"@,
        DeclError::MissingCode => "err_code missing"@,
        DeclError::BadCode => "err_code must be exactly 5 digits"@,
        DeclError::MissingText { kind } => text_key(kind) + " missing"@,
        DeclError::DuplicateCode { err_code, first_variant } => "duplicate err_code `"@ + err_code@
            + "`; first used by variant `"@ + first_variant@ + "`"@,
        DeclError::Malformed => "malformed variant attribute"@,
    }
}

impl DeclError {
    /// The message the declaration is refused with.
    pub fn message(&self) -> (r: String)
        ensures
            r@ == decl_message(*self),
    {
        match self {
            DeclError::MissingPrefix => String::from_str("`err_code_prefix` attribute is required on the enum"),
            DeclError::BadPrefix => String::from_str("`err_code_prefix` must be exactly 3 digits, e.g. \"001\""),
            DeclError::UnknownAttribute { ident, kind } => {
                let mut m = String::from_str("unknown attribute `");
                m.append(ident.as_str());
                m.append("`, expected `err_code` or `");
                m.append(kind.text_key());
                m.append("`");
                m
            },
            DeclError::MissingCode => String::from_str("err_code missing"),
            DeclError::BadCode => String::from_str("err_code must be exactly 5 digits"),
            DeclError::MissingText { kind } => {
                let mut m = String::from_str(kind.text_key());
                m.append(" missing");
                m
            },
            DeclError::DuplicateCode { err_code, first_variant } => {
                let mut m = String::from_str("duplicate err_code `");
                m.append(err_code.as_str());
                m.append("`; first used by variant `");
                m.append(first_variant.as_str());
                m.append("`");
                m
            },
            DeclError::Malformed => String::from_str("malformed variant attribute"),
        }
    }
}

/// Checks an enum's `err_code_prefix`: exactly three digits.
pub fn check_err_code_prefix(prefix: &str) -> (r: Result<(), DeclError>)
    ensures
        r is Ok <==> numeric_with_len(prefix@, 3),
        r matches Err(e) ==> e is BadPrefix,
{
    if is_numeric_with_len(prefix, 3) {
        Ok(())
    } else {
        Err(DeclError::BadPrefix)
    }
}

/// The full code of a variant: its five-digit number after the enum's prefix.
/// No number, or one that is not five digits, is refused.
pub fn validate_err_code(raw_code: Option<&str>, err_code_prefix: &str) -> (r: Result<String, DeclError>)
    ensures
        match raw_code {
            None => r matches Err(e) && e is MissingCode,
            Some(code) => if numeric_with_len(code@, 5) {
                r matches Ok(full) && full@ == err_code_prefix@ + code@
            } else {
                r matches Err(e) && e is BadCode
            },
        },
{
    match raw_code {
        Some(code) => {
            if !is_numeric_with_len(code, 5) {
                return Err(DeclError::BadCode);
            }
            let mut full = String::from_str(err_code_prefix);
            full.append(code);
            Ok(full)
        },
        None => Err(DeclError::MissingCode),
    }
}

/// One variant of an error enum, as its attributes are read: the code (five
/// digits until validated, the full code after) and the text.
pub struct ErrVariant {
    pub kind: VariantKind,
    pub var_name: String,
    pub err_code: String,
    pub text: Option<String>,
}

impl ErrVariant {
    /// A variant with no attributes read yet.
    pub fn new(kind: VariantKind, var_name: String) -> (r: ErrVariant)
        ensures
            r.kind == kind,
            r.var_name@ == var_name@,
            r.err_code@ == Seq::<char>::empty(),
            r.text is None,
    {
        ErrVariant { kind, var_name, err_code: String::new(), text: None }
    }

    /// Reads one `key = "value"` item of the variant's `error` attribute:
    /// `err_code` sets the code, the kind's text key sets the text, any other
    /// key is refused.
    pub fn update(&mut self, ident: &str, lit_val: String) -> (r: Result<(), DeclError>)
        ensures
            final(self).kind == old(self).kind,
            final(self).var_name == old(self).var_name,
            if ident@ == "err_code"@ {
                r is Ok && final(self).err_code@ == lit_val@ && final(self).text == old(self).text
            } else if ident@ == text_key(old(self).kind) {
                r is Ok && final(self).err_code == old(self).err_code
                    && (final(self).text matches Some(t) && t@ == lit_val@)
            } else {
                (r matches Err(DeclError::UnknownAttribute { ident: id, kind: k }) && k == old(self).kind
                    && id@ == ident@) && final(self).err_code == old(self).err_code && final(self).text == old(self).text
            },
    {
        if str_eq(ident, "err_code") {
            self.err_code = lit_val;
            Ok(())
        } else if str_eq(ident, self.kind.text_key()) {
            self.text = Some(lit_val);
            Ok(())
        } else {
            Err(DeclError::UnknownAttribute { ident: String::from_str(ident), kind: self.kind })
        }
    }

    /// Checks the variant after all its attributes were read, and replaces its
    /// number with the full code (`err_code_prefix` followed by the number).
    /// An empty code counts as missing; a refused code is cleared.
    pub fn validate(&mut self, err_code_prefix: &str) -> (r: Result<(), DeclError>)
        ensures
            final(self).kind == old(self).kind,
            final(self).var_name == old(self).var_name,
            final(self).text == old(self).text,
            if old(self).err_code@.len() == 0 {
                r matches Err(e) && e is MissingCode && final(self).err_code@ == Seq::<char>::empty()
            } else if !numeric_with_len(old(self).err_code@, 5) {
                r matches Err(e) && e is BadCode && final(self).err_code@ == Seq::<char>::empty()
            } else if old(self).text is None {
                r matches Err(e) && e == (DeclError::MissingText { kind: old(self).kind })
                    && final(self).err_code@ == err_code_prefix@ + old(self).err_code@
            } else {
                r is Ok && final(self).err_code@ == err_code_prefix@ + old(self).err_code@
            },
    {
        let raw = if self.err_code.as_str().unicode_len() == 0 {
            None
        } else {
            Some(self.err_code.as_str())
        };
        let full = match validate_err_code(raw, err_code_prefix) {
            Ok(full) => full,
            Err(e) => {
                self.err_code = String::new();
                return Err(e);
            },
        };
        self.err_code = full;
        if self.text.is_none() {
            return Err(DeclError::MissingText { kind: self.kind });
        }
        Ok(())
    }
}

/// The full codes of an enum's variants read so far, with the variant that
/// used each first.
pub struct EnumCodes {
    pub seen: Vec<(String, String)>,
}

/// Some entry of `seen` has code `code`.
pub open spec fn code_seen(seen: Seq<(String, String)>, code: Seq<char>) -> bool {
    exists|i: int| 0 <= i < seen.len() && seen[i].0@ == code
}

impl EnumCodes {
    /// No codes yet.
    pub fn new() -> (r: EnumCodes)
        ensures
            r.seen@.len() == 0,
    {
        EnumCodes { seen: Vec::new() }
    }

    /// Records that `var_name` uses `err_code`; a code used before is refused,
    /// naming the variant that used it first.
    pub fn add(&mut self, err_code: &str, var_name: &str) -> (r: Result<(), DeclError>)
        ensures
            !code_seen(old(self).seen@, err_code@) ==> r is Ok && final(self).seen@.len() == old(self).seen@.len() + 1
                && (forall|i: int| 0 <= i < old(self).seen@.len() ==> final(self).seen@[i] == old(self).seen@[i])
                && final(self).seen@.last().0@ == err_code@ && final(self).seen@.last().1@ == var_name@,
            code_seen(old(self).seen@, err_code@) ==> final(self).seen@ == old(self).seen@ && exists|i: int|
                0 <= i < old(self).seen@.len() && old(self).seen@[i].0@ == err_code@
                && (forall|j: int| 0 <= j < i ==> old(self).seen@[j].0@ != err_code@)
                && (r matches Err(DeclError::DuplicateCode { err_code: c, first_variant: v }) && c@ == err_code@
                && v@ == old(self).seen@[i].1@),
    {
        let mut i: usize = 0;
        while i < self.seen.len()
            invariant
                i <= self.seen@.len(),
                self.seen@ == old(self).seen@,
                forall|j: int| 0 <= j < i ==> self.seen@[j].0@ != err_code@,
            decreases self.seen@.len() - i,
        {
            if str_eq(self.seen[i].0.as_str(), err_code) {
                let first = self.seen[i].1.clone();
                return Err(DeclError::DuplicateCode { err_code: String::from_str(err_code), first_variant: first });
            }
            i = i + 1;
        }
        self.seen.push((String::from_str(err_code), String::from_str(var_name)));
        Ok(())
    }
}

/// The generated identifier `prefix`, the sanitized `enum_name`, `_`, the
/// sanitized `var_name`.
pub open spec fn variant_ident(prefix: Seq<char>, enum_name: Seq<char>, var_name: Seq<char>) -> Seq<char> {
    prefix + sanitized(enum_name) + seq!['_'] + sanitized(var_name)
}

fn variant_ident_string(prefix: &str, enum_name: &str, var_name: &str) -> (r: String)
    ensures
        r@ == variant_ident(prefix@, enum_name@, var_name@),
{
    let mut out = String::from_str(prefix);
    let e = sanitize_ident_part(enum_name);
    out.append(e.as_str());
    push_char(&mut out, '_');
    let v = sanitize_ident_part(var_name);
    out.append(v.as_str());
    out
}

/// The name of the registration item generated for a variant:
/// `ERR_REG_<ENUM>_<VARIANT>`.
pub fn registration_ident(enum_name: &str, var_name: &str) -> (r: String)
    ensures
        r@ == variant_ident("ERR_REG_"@, enum_name@, var_name@),
{
    variant_ident_string("ERR_REG_", enum_name, var_name)
}

/// The name of the link-time guard generated for a variant:
/// `WJJ_STD_ERR_CODE_LINK_GUARD_<ENUM>_<VARIANT>`.
pub fn link_guard_ident(enum_name: &str, var_name: &str) -> (r: String)
    ensures
        r@ == variant_ident("WJJ_STD_ERR_CODE_LINK_GUARD_"@, enum_name@, var_name@),
{
    variant_ident_string("WJJ_STD_ERR_CODE_LINK_GUARD_", enum_name, var_name)
}

/// The name of the constant that makes a code declared twice in one module a
/// compile error: `WJJ_STD_ERR_CODE_<code>`.
pub fn err_code_guard_ident(err_code: &str) -> (r: String)
    ensures
        r@ == "WJJ_STD_ERR_CODE_"@ + err_code@,
{
    let mut out = String::from_str("WJJ_STD_ERR_CODE_");
    out.append(err_code);
    out
}

/// The exported symbol that makes a code declared twice in one program a link
/// error: `__wjj_std_err_code_<code>`.
pub fn err_code_symbol(err_code: &str) -> (r: String)
    ensures
        r@ == "__wjj_std_err_code_"@ + err_code@,
{
    let mut out = String::from_str("__wjj_std_err_code_");
    out.append(err_code);
    out
}

/// `c` is an upper-case ASCII letter, an ASCII digit or `_`.
pub open spec fn is_ident_part_char(c: char) -> bool {
    is_digit(c) || ('A' <= c && c <= 'Z') || c == '_'
}

/// A full error code is eight digits: the enum's three-digit prefix followed by
/// the variant's five-digit number.
pub proof fn law_full_code_is_eight_digits(prefix: Seq<char>, number: Seq<char>)
    requires
        numeric_with_len(prefix, 3),
        numeric_with_len(number, 5),
    ensures
        numeric_with_len(prefix + number, 8),
        (prefix + number).take(3) == prefix,
        (prefix + number).skip(3) == number,
{
    let full = prefix + number;
    assert forall|i: int| 0 <= i < full.len() implies is_digit(#[trigger] full[i]) by {
        if i < 3 {
            assert(full[i] == prefix[i]);
        } else {
            assert(full[i] == number[i - 3]);
        }
    }
    assert(full.take(3) =~= prefix);
    assert(full.skip(3) =~= number);
}

/// A sanitized name holds only upper-case ASCII letters, digits and `_`, and
/// sanitizing it again changes nothing.
pub proof fn law_sanitized_is_identifier_part(s: Seq<char>)
    ensures
        forall|i: int| 0 <= i < sanitized(s).len() ==> is_ident_part_char(#[trigger] sanitized(s)[i]),
        sanitized(sanitized(s)) == sanitized(s),
{
    let t = sanitized(s);
    assert forall|i: int| 0 <= i < t.len() implies is_ident_part_char(#[trigger] t[i]) by {
        let c = strip_raw_prefix(s)[i];
        if 'a' <= c && c <= 'z' {
            assert(((c as int) - 32) as char as int == (c as int) - 32);
        }
    }
    if t.len() >= 2 {
        assert(t[0] != 'r');
    }
    assert(strip_raw_prefix(t) == t);
    assert forall|i: int| 0 <= i < t.len() implies #[trigger] ident_char(t[i]) == t[i] by {
        assert(is_ident_part_char(t[i]));
    }
    assert(sanitized(t) =~= t);
}

/// The value of the enum's `err_code_prefix` attributes, in order: each must
/// be three digits, the last one counts, and there must be one.
pub open spec fn prefix_outcome(prefixes: Seq<Seq<char>>) -> Result<Seq<char>, DeclFailure> {
    if exists|i: int| 0 <= i < prefixes.len() && !numeric_with_len(#[trigger] prefixes[i], 3) {
        Err(DeclFailure::BadPrefix)
    } else if prefixes.len() == 0 {
        Err(DeclFailure::MissingPrefix)
    } else {
        Ok(prefixes.last())
    }
}

/// The prefix an enum's `err_code_prefix` attributes give.
pub fn resolve_prefix(prefixes: &Vec<String>) -> (r: Result<String, DeclError>)
    ensures
        match prefix_outcome(prefixes@.map_values(|p: String| p@)) {
            Ok(p) => r matches Ok(q) && q@ == p,
            Err(f) => r matches Err(e) && e.failure() == f,
        },
        r is Ok <==> (prefixes@.len() > 0 && forall|i: int| 0 <= i < prefixes@.len() ==> numeric_with_len(#[trigger] prefixes@[i]@, 3)),
        r matches Ok(q) ==> numeric_with_len(q@, 3),
{
    let ghost views = prefixes@.map_values(|p: String| p@);
    proof {
        law_prefix_must_be_three_digits(views);
        assert forall|i: int| 0 <= i < prefixes@.len() implies views[i] == #[trigger] prefixes@[i]@ by {}
    }
    let mut i: usize = 0;
    while i < prefixes.len()
        invariant
            i <= prefixes@.len(),
            views == prefixes@.map_values(|p: String| p@),
            forall|j: int| 0 <= j < i ==> numeric_with_len(#[trigger] views[j], 3),
        decreases prefixes@.len() - i,
    {
        if check_err_code_prefix(prefixes[i].as_str()).is_err() {
            assert(!numeric_with_len(views[i as int], 3));
            return Err(DeclError::BadPrefix);
        }
        i = i + 1;
    }
    if prefixes.len() == 0 {
        return Err(DeclError::MissingPrefix);
    }
    Ok(prefixes[prefixes.len() - 1].clone())
}

/// A variant of an error enum as declared: its name, the `key = "value"`
/// items of its `error` attributes, in order, and whether its attributes could
/// not be read past those items (`malformed`).
pub struct VariantDecl {
    pub name: String,
    pub items: Vec<(String, String)>,
    pub malformed: bool,
}

/// The items of a declaration as plain values.
pub open spec fn items_view(items: Seq<(String, String)>) -> Seq<(Seq<char>, Seq<char>)> {
    Seq::new(items.len(), |i: int| (items[i].0@, items[i].1@))
}

/// The code and text after reading `items` in order, starting from `code` and
/// `text`; the first unknown key is refused.
pub open spec fn read_items(kind: VariantKind, items: Seq<(Seq<char>, Seq<char>)>) -> Result<(Seq<char>, Option<Seq<char>>), DeclFailure>
    decreases items.len(),
{
    if items.len() == 0 {
        Ok((Seq::empty(), None))
    } else {
        match read_items(kind, items.drop_last()) {
            Err(f) => Err(f),
            Ok((code, text)) => {
                let (key, value) = items.last();
                if key == "err_code"@ {
                    Ok((value, text))
                } else if key == text_key(kind) {
                    Ok((code, Some(value)))
                } else {
                    Err(DeclFailure::UnknownAttribute(key, kind))
                }
            },
        }
    }
}

/// The full code and text of a variant with `items` in an enum with `prefix`;
/// the items are read before the fault of a malformed variant counts.
pub open spec fn variant_outcome(kind: VariantKind, prefix: Seq<char>, items: Seq<(Seq<char>, Seq<char>)>, malformed: bool) -> Result<(Seq<char>, Seq<char>), DeclFailure> {
    match read_items(kind, items) {
        Err(f) => Err(f),
        Ok((code, text)) => if malformed {
            Err(DeclFailure::Malformed)
        } else if code.len() == 0 {
            Err(DeclFailure::MissingCode)
        } else if !numeric_with_len(code, 5) {
            Err(DeclFailure::BadCode)
        } else {
            match text {
                None => Err(DeclFailure::MissingText(kind)),
                Some(t) => Ok((prefix + code, t)),
            }
        },
    }
}

/// The index of the first of `vs` with full code `code`, if any.
pub open spec fn first_with_code(vs: Seq<(Seq<char>, Seq<char>, Seq<char>)>, code: Seq<char>) -> Option<int>
    decreases vs.len(),
{
    if vs.len() == 0 {
        None
    } else {
        match first_with_code(vs.drop_last(), code) {
            Some(i) => Some(i),
            None => if vs.last().1 == code { Some(vs.len() - 1) } else { None },
        }
    }
}

/// A declared variant as plain values: name, items, malformed.
pub type DeclView = (Seq<char>, Seq<(Seq<char>, Seq<char>)>, bool);

/// The variants of an enum with `prefix` declared as `decls`, as (name, full
/// code, text), in order; the first variant that is refused, or whose full
/// code an earlier variant has, gives the error, with its position.
pub open spec fn enum_outcome(kind: VariantKind, prefix: Seq<char>, decls: Seq<DeclView>)
    -> Result<Seq<(Seq<char>, Seq<char>, Seq<char>)>, (nat, DeclFailure)>
    decreases decls.len(),
{
    if decls.len() == 0 {
        Ok(Seq::empty())
    } else {
        let at = (decls.len() - 1) as nat;
        match enum_outcome(kind, prefix, decls.drop_last()) {
            Err(f) => Err(f),
            Ok(vs) => match variant_outcome(kind, prefix, decls.last().1, decls.last().2) {
                Err(f) => Err((at, f)),
                Ok((code, text)) => match first_with_code(vs, code) {
                    Some(i) => Err((at, DeclFailure::DuplicateCode(code, vs[i].0))),
                    None => Ok(vs.push((decls.last().0, code, text))),
                },
            },
        }
    }
}

/// The declarations as plain values.
pub open spec fn decls_view(decls: Seq<VariantDecl>) -> Seq<DeclView> {
    Seq::new(decls.len(), |i: int| (decls[i].name@, items_view(decls[i].items@), decls[i].malformed))
}

/// Validated variants as (name, full code, text).
pub open spec fn variants_view(vs: Seq<ErrVariant>) -> Seq<(Seq<char>, Seq<char>, Seq<char>)> {
    Seq::new(vs.len(), |i: int| (vs[i].var_name@, vs[i].err_code@, match vs[i].text { Some(t) => t@, None => Seq::empty() }))
}

/// Reads one declared variant: its items, then its validation.
fn read_variant(kind: VariantKind, prefix: &str, decl: &VariantDecl) -> (r: Result<ErrVariant, DeclError>)
    ensures
        match variant_outcome(kind, prefix@, items_view(decl.items@), decl.malformed) {
            Ok((code, text)) => r matches Ok(v) && v.kind == kind && v.var_name@ == decl.name@ && v.err_code@ == code
                && (v.text matches Some(t) && t@ == text),
            Err(f) => r matches Err(e) && e.failure() == f,
        },
{
    let mut v = ErrVariant::new(kind, decl.name.clone());
    let ghost items = items_view(decl.items@);
    let mut i: usize = 0;
    assert(items.take(0) =~= Seq::<(Seq<char>, Seq<char>)>::empty());
    while i < decl.items.len()
        invariant
            i <= decl.items@.len(),
            items == items_view(decl.items@),
            v.kind == kind,
            v.var_name@ == decl.name@,
            read_items(kind, items.take(i as int)) == Ok::<(Seq<char>, Option<Seq<char>>), DeclFailure>(
                (v.err_code@, match v.text { Some(t) => Some(t@), None => None })),
        decreases decl.items@.len() - i,
    {
        let (key, value) = &decl.items[i];
        assert(items.take(i + 1).drop_last() =~= items.take(i as int));
        assert(items.take(i + 1).last() == (key@, value@));
        match v.update(key.as_str(), value.clone()) {
            Ok(()) => {},
            Err(e) => {
                proof { lemma_read_items_failure_persists(kind, items, i + 1); }
                return Err(e);
            },
        }
        i = i + 1;
    }
    assert(items.take(decl.items@.len() as int) =~= items);
    if decl.malformed {
        return Err(DeclError::Malformed);
    }
    match v.validate(prefix) {
        Ok(()) => Ok(v),
        Err(e) => Err(e),
    }
}

proof fn lemma_read_items_failure_persists(kind: VariantKind, items: Seq<(Seq<char>, Seq<char>)>, k: int)
    requires
        0 <= k <= items.len(),
        read_items(kind, items.take(k)) is Err,
    ensures
        read_items(kind, items) == read_items(kind, items.take(k)),
    decreases items.len() - k,
{
    if k < items.len() {
        assert(items.take(k + 1).drop_last() =~= items.take(k));
        lemma_read_items_failure_persists(kind, items, k + 1);
    } else {
        assert(items.take(k) =~= items);
    }
}

proof fn lemma_enum_failure_persists(kind: VariantKind, prefix: Seq<char>, decls: Seq<DeclView>, k: int)
    requires
        0 <= k <= decls.len(),
        enum_outcome(kind, prefix, decls.take(k)) is Err,
    ensures
        enum_outcome(kind, prefix, decls) == enum_outcome(kind, prefix, decls.take(k)),
    decreases decls.len() - k,
{
    if k < decls.len() {
        assert(decls.take(k + 1).drop_last() =~= decls.take(k));
        lemma_enum_failure_persists(kind, prefix, decls, k + 1);
    } else {
        assert(decls.take(k) =~= decls);
    }
}

/// Without a duplicate, the first variant with a code is found, or none.
proof fn lemma_first_with_code(vs: Seq<(Seq<char>, Seq<char>, Seq<char>)>, code: Seq<char>)
    ensures
        match first_with_code(vs, code) {
            Some(i) => 0 <= i < vs.len() && vs[i].1 == code && forall|j: int| 0 <= j < i ==> vs[j].1 != code,
            None => forall|j: int| 0 <= j < vs.len() ==> vs[j].1 != code,
        },
    decreases vs.len(),
{
    if vs.len() > 0 {
        let prev = vs.drop_last();
        lemma_first_with_code(prev, code);
        assert forall|j: int| 0 <= j < prev.len() implies prev[j] == vs[j] by {}
    }
}

/// Reads the variants of an error enum in order: each variant's attributes
/// are read and validated, and its full code must differ from those before it.
pub fn expand_variants(kind: VariantKind, prefix: &str, decls: &Vec<VariantDecl>) -> (r: Result<Vec<ErrVariant>, (usize, DeclError)>)
    ensures
        match enum_outcome(kind, prefix@, decls_view(decls@)) {
            Ok(vs) => r matches Ok(out) && variants_view(out@) == vs,
            Err((at, f)) => r matches Err((i, e)) && i == at && e.failure() == f,
        },
        r matches Ok(out) ==> forall|j: int| 0 <= j < out@.len() ==> (#[trigger] out@[j]).kind == kind && out@[j].text is Some,
{
    let ghost dv = decls_view(decls@);
    let mut out: Vec<ErrVariant> = Vec::new();
    let mut codes = EnumCodes::new();
    let mut i: usize = 0;
    assert(dv.take(0) =~= Seq::<DeclView>::empty());
    assert(variants_view(out@) =~= Seq::<(Seq<char>, Seq<char>, Seq<char>)>::empty());
    while i < decls.len()
        invariant
            i <= decls@.len(),
            dv == decls_view(decls@),
            enum_outcome(kind, prefix@, dv.take(i as int)) == Ok::<Seq<(Seq<char>, Seq<char>, Seq<char>)>, (nat, DeclFailure)>(variants_view(out@)),
            codes.seen@.len() == out@.len(),
            forall|j: int| 0 <= j < out@.len() ==> #[trigger] codes.seen@[j].0@ == out@[j].err_code@
                && codes.seen@[j].1@ == out@[j].var_name@,
            forall|j: int| 0 <= j < out@.len() ==> (#[trigger] out@[j]).text is Some && out@[j].kind == kind,
        decreases decls@.len() - i,
    {
        let decl = &decls[i];
        let ghost prev = variants_view(out@);
        assert(dv.take(i + 1).drop_last() =~= dv.take(i as int));
        assert(dv.take(i + 1).last() == (decl.name@, items_view(decl.items@), decl.malformed));
        let v = match read_variant(kind, prefix, decl) {
            Ok(v) => v,
            Err(e) => {
                proof { lemma_enum_failure_persists(kind, prefix@, dv, i + 1); }
                return Err((i, e));
            },
        };
        proof {
            lemma_first_with_code(prev, v.err_code@);
            assert forall|j: int| 0 <= j < codes.seen@.len() implies (codes.seen@[j].0@ == v.err_code@ <==> #[trigger] prev[j].1 == v.err_code@) by {
                assert(prev[j].1 == out@[j].err_code@);
            }
        }
        match codes.add(v.err_code.as_str(), v.var_name.as_str()) {
            Ok(()) => {},
            Err(e) => {
                proof {
                    let k = choose|k: int| 0 <= k < codes.seen@.len() && codes.seen@[k].0@ == v.err_code@
                        && (forall|j: int| 0 <= j < k ==> codes.seen@[j].0@ != v.err_code@)
                        && (e matches DeclError::DuplicateCode { err_code: c, first_variant: f } && c@ == v.err_code@
                        && f@ == codes.seen@[k].1@);
                    assert(prev[k].1 == v.err_code@);
                    assert forall|j: int| 0 <= j < k implies prev[j].1 != v.err_code@ by {
                        assert(codes.seen@[j].0@ != v.err_code@);
                    }
                    assert(first_with_code(prev, v.err_code@) == Some(k));
                    assert(prev[k].0 == codes.seen@[k].1@);
                    lemma_enum_failure_persists(kind, prefix@, dv, i + 1);
                }
                return Err((i, e));
            },
        }
        out.push(v);
        assert(variants_view(out@) =~= prev.push((decl.name@, v.err_code@, match v.text { Some(t) => t@, None => Seq::empty() })));
        i = i + 1;
    }
    assert(dv.take(decls@.len() as int) =~= dv);
    Ok(out)
}

/// The variants an enum declaration yields have distinct full codes, each of
/// them eight digits that start with the enum's prefix.
pub proof fn law_enum_codes_unique(kind: VariantKind, prefix: Seq<char>, decls: Seq<DeclView>)
    requires
        numeric_with_len(prefix, 3),
        enum_outcome(kind, prefix, decls) is Ok,
    ensures
        ({
            let vs = enum_outcome(kind, prefix, decls)->Ok_0;
            &&& vs.len() == decls.len()
            &&& forall|i: int, j: int| 0 <= i < vs.len() && 0 <= j < vs.len() && i != j ==> #[trigger] vs[i].1 != #[trigger] vs[j].1
            &&& forall|i: int| 0 <= i < vs.len() ==> numeric_with_len(#[trigger] vs[i].1, 8) && vs[i].1.take(3) == prefix
        }),
    decreases decls.len(),
{
    if decls.len() > 0 {
        let prev = decls.drop_last();
        law_enum_codes_unique(kind, prefix, prev);
        let ps = enum_outcome(kind, prefix, prev)->Ok_0;
        let (code, text) = variant_outcome(kind, prefix, decls.last().1, decls.last().2)->Ok_0;
        let (c5, t) = read_items(kind, decls.last().1)->Ok_0;
        law_full_code_is_eight_digits(prefix, c5);
        lemma_first_with_code(ps, code);
        let vs = ps.push((decls.last().0, code, text));
        assert(enum_outcome(kind, prefix, decls)->Ok_0 == vs);
        assert forall|i: int, j: int| 0 <= i < vs.len() && 0 <= j < vs.len() && i != j implies #[trigger] vs[i].1 != #[trigger] vs[j].1 by {
            if i < ps.len() && j < ps.len() {
                assert(vs[i] == ps[i] && vs[j] == ps[j]);
            } else if i < ps.len() {
                assert(vs[i] == ps[i]);
            } else {
                assert(vs[j] == ps[j]);
            }
        }
        assert forall|i: int| 0 <= i < vs.len() implies numeric_with_len(#[trigger] vs[i].1, 8) && vs[i].1.take(3) == prefix by {
            if i < ps.len() {
                assert(vs[i] == ps[i]);
            }
        }
    }
}

/// An enum's prefix is accepted exactly when it is given at least once and
/// every `err_code_prefix` given is three ASCII digits; the last one counts.
pub proof fn law_prefix_must_be_three_digits(prefixes: Seq<Seq<char>>)
    ensures
        prefix_outcome(prefixes) is Ok <==> (prefixes.len() > 0 && forall|i: int| 0 <= i < prefixes.len()
            ==> numeric_with_len(#[trigger] prefixes[i], 3)),
        prefix_outcome(prefixes) matches Ok(p) ==> p == prefixes.last() && numeric_with_len(p, 3),
        (exists|i: int| 0 <= i < prefixes.len() && !numeric_with_len(#[trigger] prefixes[i], 3))
            ==> prefix_outcome(prefixes) == Err::<Seq<char>, DeclFailure>(DeclFailure::BadPrefix),
{
    if prefixes.len() > 0 && forall|i: int| 0 <= i < prefixes.len() ==> numeric_with_len(#[trigger] prefixes[i], 3) {
        assert(numeric_with_len(prefixes[prefixes.len() - 1], 3));
    }
}

/// The codes of validated variants, in order.
pub open spec fn codes_of(vs: Seq<(Seq<char>, Seq<char>, Seq<char>)>) -> Seq<Seq<char>> {
    Seq::new(vs.len(), |i: int| vs[i].1)
}

/// Variants are refused only one by one or for a repeated code: when every
/// declared variant is valid on its own and their full codes are pairwise
/// distinct, the enum gives one entry per declaration, in order, with that
/// variant's name, full code and text.
pub proof fn law_distinct_valid_variants_accepted(kind: VariantKind, prefix: Seq<char>, decls: Seq<DeclView>)
    requires
        forall|i: int| 0 <= i < decls.len() ==> (#[trigger] variant_outcome(kind, prefix, decls[i].1, decls[i].2)) is Ok,
        forall|i: int, j: int| 0 <= i < j < decls.len() ==> #[trigger] variant_outcome(kind, prefix, decls[i].1, decls[i].2)->Ok_0.0
            != #[trigger] variant_outcome(kind, prefix, decls[j].1, decls[j].2)->Ok_0.0,
    ensures
        enum_outcome(kind, prefix, decls) is Ok,
        enum_outcome(kind, prefix, decls)->Ok_0.len() == decls.len(),
        forall|i: int| 0 <= i < decls.len() ==> #[trigger] enum_outcome(kind, prefix, decls)->Ok_0[i] == (decls[i].0,
            variant_outcome(kind, prefix, decls[i].1, decls[i].2)->Ok_0.0, variant_outcome(kind, prefix, decls[i].1, decls[i].2)->Ok_0.1),
    decreases decls.len(),
{
    if decls.len() > 0 {
        let prev = decls.drop_last();
        assert forall|i: int| 0 <= i < prev.len() implies (#[trigger] variant_outcome(kind, prefix, prev[i].1, prev[i].2)) is Ok by {
            assert(prev[i] == decls[i]);
        }
        assert forall|i: int, j: int| 0 <= i < j < prev.len() implies #[trigger] variant_outcome(kind, prefix, prev[i].1, prev[i].2)->Ok_0.0
            != #[trigger] variant_outcome(kind, prefix, prev[j].1, prev[j].2)->Ok_0.0 by {
            assert(prev[i] == decls[i] && prev[j] == decls[j]);
        }
        law_distinct_valid_variants_accepted(kind, prefix, prev);
        let vs = enum_outcome(kind, prefix, prev)->Ok_0;
        let last = decls.len() - 1;
        let (code, text) = variant_outcome(kind, prefix, decls[last].1, decls[last].2)->Ok_0;
        assert(variant_outcome(kind, prefix, decls[last].1, decls[last].2) is Ok);
        lemma_first_with_code(vs, code);
        assert forall|j: int| 0 <= j < vs.len() implies vs[j].1 != code by {
            assert(prev[j] == decls[j]);
            assert(vs[j].1 == variant_outcome(kind, prefix, decls[j].1, decls[j].2)->Ok_0.0);
        }
        assert forall|i: int| 0 <= i < decls.len() implies #[trigger] enum_outcome(kind, prefix, decls)->Ok_0[i] == (decls[i].0,
            variant_outcome(kind, prefix, decls[i].1, decls[i].2)->Ok_0.0, variant_outcome(kind, prefix, decls[i].1, decls[i].2)->Ok_0.1) by {
            if i < last {
                assert(prev[i] == decls[i]);
            }
        }
    }
}

/// A refused enum is refused at a variant that is invalid on its own (with
/// that variant's own failure), or at a variant whose full code an earlier
/// valid variant already has (naming that earlier variant).
pub proof fn law_refusal_is_a_bad_variant_or_a_repeated_code(kind: VariantKind, prefix: Seq<char>, decls: Seq<DeclView>)
    requires
        enum_outcome(kind, prefix, decls) is Err,
    ensures
        ({
            let (at, f) = enum_outcome(kind, prefix, decls)->Err_0;
            &&& 0 <= at < decls.len()
            &&& (variant_outcome(kind, prefix, decls[at as int].1, decls[at as int].2) == Err::<(Seq<char>, Seq<char>), DeclFailure>(f)
                || exists|j: int| 0 <= j < at && {
                    &&& variant_outcome(kind, prefix, decls[at as int].1, decls[at as int].2) is Ok
                    &&& variant_outcome(kind, prefix, decls[j].1, decls[j].2) is Ok
                    &&& variant_outcome(kind, prefix, decls[j].1, decls[j].2)->Ok_0.0
                        == variant_outcome(kind, prefix, decls[at as int].1, decls[at as int].2)->Ok_0.0
                    &&& f == DeclFailure::DuplicateCode(variant_outcome(kind, prefix, decls[at as int].1, decls[at as int].2)->Ok_0.0,
                        decls[j].0)
                })
        }),
    decreases decls.len(),
{
    let prev = decls.drop_last();
    let last = decls.len() - 1;
    assert(decls.len() > 0);
    if enum_outcome(kind, prefix, prev) is Err {
        law_refusal_is_a_bad_variant_or_a_repeated_code(kind, prefix, prev);
        let (at, f) = enum_outcome(kind, prefix, prev)->Err_0;
        assert(prev[at as int] == decls[at as int]);
        if !(variant_outcome(kind, prefix, decls[at as int].1, decls[at as int].2) == Err::<(Seq<char>, Seq<char>), DeclFailure>(f)) {
            let j = choose|j: int| 0 <= j < at && {
                &&& variant_outcome(kind, prefix, prev[at as int].1, prev[at as int].2) is Ok
                &&& variant_outcome(kind, prefix, prev[j].1, prev[j].2) is Ok
                &&& variant_outcome(kind, prefix, prev[j].1, prev[j].2)->Ok_0.0
                    == variant_outcome(kind, prefix, prev[at as int].1, prev[at as int].2)->Ok_0.0
                &&& f == DeclFailure::DuplicateCode(variant_outcome(kind, prefix, prev[at as int].1, prev[at as int].2)->Ok_0.0,
                    prev[j].0)
            };
            assert(prev[j] == decls[j]);
        }
    } else {
        let vs = enum_outcome(kind, prefix, prev)->Ok_0;
        assert(decls.last() == decls[last]);
        if variant_outcome(kind, prefix, decls[last].1, decls[last].2) is Ok {
            let code = variant_outcome(kind, prefix, decls[last].1, decls[last].2)->Ok_0.0;
            lemma_first_with_code(vs, code);
            let i = first_with_code(vs, code)->Some_0;
            lemma_enum_entries(kind, prefix, prev);
            assert(entry_from_decl(kind, prefix, prev, vs, i));
            assert(prev[i] == decls[i]);
        }
    }
}

/// Entry `i` of `vs` is the validated declaration `i` of `decls`.
pub open spec fn entry_from_decl(kind: VariantKind, prefix: Seq<char>, decls: Seq<DeclView>, vs: Seq<(Seq<char>, Seq<char>, Seq<char>)>, i: int) -> bool {
    &&& variant_outcome(kind, prefix, decls[i].1, decls[i].2) is Ok
    &&& vs[i] == (decls[i].0, variant_outcome(kind, prefix, decls[i].1, decls[i].2)->Ok_0.0,
        variant_outcome(kind, prefix, decls[i].1, decls[i].2)->Ok_0.1)
}

/// Each entry of an accepted enum comes from the declaration at its position.
proof fn lemma_enum_entries(kind: VariantKind, prefix: Seq<char>, decls: Seq<DeclView>)
    requires
        enum_outcome(kind, prefix, decls) is Ok,
    ensures
        enum_outcome(kind, prefix, decls)->Ok_0.len() == decls.len(),
        forall|i: int| 0 <= i < decls.len() ==> #[trigger] entry_from_decl(kind, prefix, decls, enum_outcome(kind, prefix, decls)->Ok_0, i),
    decreases decls.len(),
{
    if decls.len() > 0 {
        let prev = decls.drop_last();
        lemma_enum_entries(kind, prefix, prev);
        let vs0 = enum_outcome(kind, prefix, prev)->Ok_0;
        let vs = enum_outcome(kind, prefix, decls)->Ok_0;
        assert forall|i: int| 0 <= i < decls.len() implies #[trigger] entry_from_decl(kind, prefix, decls, vs, i) by {
            if i < decls.len() - 1 {
                assert(prev[i] == decls[i]);
                assert(entry_from_decl(kind, prefix, prev, vs0, i));
                assert(vs[i] == vs0[i]);
            }
        }
    }
}

} // verus!
