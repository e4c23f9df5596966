//! Deciding whether a published release of the launcher is newer than the running build,
//! and reading the release metadata that decides it.
use vstd::prelude::*;

use crate::json::{
    json_parse, lemma_array_view, member, number_u64, opt_string, parse_json, text_member, text_of,
    JsonData, JsonValue,
};
use crate::text::{
    concat2, ascii_lowercase_seq, chars_contains, chars_ends_with, chars_eq,
    chars_eq_ignore_ascii_case, chars_of, chars_starts_with, chars_to_ascii_lowercase,
    contains_seq, decimal_of, decimal_string, digit_pred, ends_with_seq,
    eq_ignore_ascii_case_seq, find_chars, find_seq, is_digit, is_white_space, is_whitespace,
    lemma_take_while, leading_digits, parse_u64, parse_u64_seq, push_decimal, split_chars,
    split_on, starts_with_seq, string_of, strip_leading, strip_leading_chars, sub_chars,
    take_while_seq, trim_chars, trim_seq, trim_start_seq, trim_str, vecs_view, append_str,
};

verus! {

broadcast use vstd::string::group_string_axioms;

/// The version, commit and build time of a build of the launcher.
#[derive(Clone, Debug)]
pub struct BasaltBuildInfo {
    pub version: String,
    pub commit: String,
    pub build_time: String,
}

/// A commit or build time, trimmed, with `unknown` (in any ASCII case) read as empty.
pub open spec fn normalized_metadata(s: Seq<char>) -> Seq<char> {
    let t = trim_seq(s);
    if eq_ignore_ascii_case_seq(t, "unknown"@) {
        Seq::empty()
    } else {
        t
    }
}

/// Whether two commit ids name the same commit: one is a prefix of the other.
pub open spec fn commits_match_seq(a: Seq<char>, b: Seq<char>) -> bool {
    starts_with_seq(a, b) || starts_with_seq(b, a)
}

/// Whether the build `latest` is newer than the running build `current`: when both
/// commits are known they decide (a different commit is newer); else numeric build times
/// decide; else any known, different build time of `latest` is newer.
pub open spec fn is_newer_build_spec(current: BasaltBuildInfo, latest: BasaltBuildInfo) -> bool {
    let cc = normalized_metadata(current.commit@);
    let lc = normalized_metadata(latest.commit@);
    if cc.len() > 0 && lc.len() > 0 {
        !commits_match_seq(cc, lc)
    } else if parse_u64_seq(current.build_time@) is Some && parse_u64_seq(
        latest.build_time@,
    ) is Some {
        parse_u64_seq(latest.build_time@)->0 > parse_u64_seq(current.build_time@)->0
    } else {
        trim_seq(latest.build_time@).len() > 0 && normalized_metadata(latest.build_time@)
            != normalized_metadata(current.build_time@)
    }
}

/// A commit or build time, trimmed, with `unknown` read as empty.
fn normalized_metadata_chars(s: &str) -> (r: Vec<char>)
    ensures
        r@ == normalized_metadata(s@),
{
    let v = chars_of(s);
    let t = trim_chars(&v);
    let unknown = chars_of("unknown");
    if chars_eq_ignore_ascii_case(&t, &unknown) {
        Vec::new()
    } else {
        t
    }
}

/// Whether two commit ids name the same commit.
pub fn commits_match(current: &str, latest: &str) -> (r: bool)
    ensures
        r == commits_match_seq(current@, latest@),
{
    let a = chars_of(current);
    let b = chars_of(latest);
    chars_starts_with(&a, &b) || chars_starts_with(&b, &a)
}

/// The commit id with surrounding whitespace removed, empty when it reads `unknown`.
pub fn normalized_commit(value: &str) -> (r: String)
    ensures
        r@ == normalized_metadata(value@),
{
    let v = normalized_metadata_chars(value);
    string_of(&v)
}

/// The build time with surrounding whitespace removed, empty when it reads `unknown`.
pub fn normalized_build_time(value: &str) -> (r: String)
    ensures
        r@ == normalized_metadata(value@),
{
    let v = normalized_metadata_chars(value);
    string_of(&v)
}

/// Whether the build `latest` is newer than the running build `current`.
pub fn is_newer_build(current: &BasaltBuildInfo, latest: &BasaltBuildInfo) -> (r: bool)
    ensures
        r == is_newer_build_spec(*current, *latest),
{
    let cc = normalized_metadata_chars(current.commit.as_str());
    let lc = normalized_metadata_chars(latest.commit.as_str());
    if cc.len() > 0 && lc.len() > 0 {
        return !(chars_starts_with(&cc, &lc) || chars_starts_with(&lc, &cc));
    }
    let current_time = chars_of(current.build_time.as_str());
    let latest_time = chars_of(latest.build_time.as_str());
    match (parse_u64(&current_time), parse_u64(&latest_time)) {
        (Some(c), Some(l)) => {
            return l > c;
        },
        _ => {},
    }
    let latest_trimmed = trim_chars(&latest_time);
    let ln = normalized_metadata_chars(latest.build_time.as_str());
    let cn = normalized_metadata_chars(current.build_time.as_str());
    latest_trimmed.len() > 0 && !chars_eq(&ln, &cn)
}

/// No build is newer than itself.
pub proof fn lemma_build_not_newer_than_itself(build: BasaltBuildInfo)
    ensures
        !is_newer_build_spec(build, build),
{
    let c = normalized_metadata(build.commit@);
    assert(c.take(c.len() as int) =~= c);
}

// ---------------------------------------------------------------------------
// Version numbers
// ---------------------------------------------------------------------------

/// The value of one dot-separated part of a version: its leading digits, which must be
/// present and fit in a `u64`.
pub open spec fn version_part_value(part: Seq<char>) -> Option<u64> {
    let digits = take_while_seq(part, digit_pred());
    if digits.len() == 0 {
        None
    } else {
        parse_u64_seq(digits)
    }
}

/// The values of the parts of a version, if every part has one.
pub open spec fn version_part_values(parts: Seq<Seq<char>>) -> Option<Seq<u64>>
    decreases parts.len(),
{
    if parts.len() == 0 {
        Some(Seq::empty())
    } else {
        match (version_part_values(parts.drop_last()), version_part_value(parts.last())) {
            (Some(prev), Some(x)) => Some(prev.push(x)),
            _ => None,
        }
    }
}

/// A version with surrounding whitespace and leading `v`s then `V`s removed.
pub open spec fn version_body(value: Seq<char>) -> Seq<char> {
    strip_leading(strip_leading(trim_seq(value), 'v'), 'V')
}

/// The numeric parts of a version such as `v1.2.3`: after removing surrounding whitespace
/// and a `v`/`V` prefix it must start with a digit, and every dot-separated part must
/// start with digits.
pub open spec fn parse_version_parts_seq(value: Seq<char>) -> Option<Seq<u64>> {
    let body = version_body(value);
    if body.len() == 0 || !is_digit(body[0]) {
        None
    } else {
        version_part_values(split_on(body, '.'))
    }
}

/// The numeric parts of a version string.
pub fn parse_version_parts(value: &str) -> (r: Option<Vec<u64>>)
    ensures
        match r {
            Some(v) => parse_version_parts_seq(value@) == Some(v@),
            None => parse_version_parts_seq(value@) is None,
        },
{
    let raw = chars_of(value);
    let t = trim_chars(&raw);
    let s1 = strip_leading_chars(&t, 'v');
    let body = strip_leading_chars(&s1, 'V');
    if body.len() == 0 || !('0' <= body[0] && body[0] <= '9') {
        return None;
    }
    let parts = split_chars(&body, '.');
    let ghost pv = vecs_view(parts@);
    let mut values: Vec<u64> = Vec::new();
    let mut i: usize = 0;
    while i < parts.len()
        invariant
            i <= parts@.len(),
            pv == vecs_view(parts@),
            pv == split_on(body@, '.'),
            body@ == version_body(value@),
            body@.len() > 0 && is_digit(body@[0]),
            version_part_values(pv.take(i as int)) == Some(values@),
        decreases parts.len() - i,
    {
        assert(pv.take(i + 1).drop_last() =~= pv.take(i as int));
        assert(pv.take(i + 1).last() == parts@[i as int]@);
        let digits = leading_digits(&parts[i]);
        if digits.len() == 0 {
            proof {
                lemma_part_values_fail(pv, i as int + 1);
            }
            return None;
        }
        match parse_u64(&digits) {
            Some(x) => {
                values.push(x);
            },
            None => {
                proof {
                    lemma_part_values_fail(pv, i as int + 1);
                }
                return None;
            },
        }
        i += 1;
    }
    assert(pv.take(parts@.len() as int) =~= pv);
    Some(values)
}

/// When a prefix of the parts has no values, neither have all parts.
proof fn lemma_part_values_fail(parts: Seq<Seq<char>>, k: int)
    requires
        0 <= k <= parts.len(),
        version_part_values(parts.take(k)) is None,
    ensures
        version_part_values(parts) is None,
    decreases parts.len() - k,
{
    if k < parts.len() {
        let t = parts.take(k + 1);
        assert(t.drop_last() =~= parts.take(k));
        lemma_part_values_fail(parts, k + 1);
    } else {
        assert(parts.take(k) =~= parts);
    }
}

/// `s` without any leading `v` or `V`.
pub open spec fn strip_version_prefix(s: Seq<char>) -> Seq<char>
    decreases s.len(),
{
    if s.len() > 0 && (s[0] == 'v' || s[0] == 'V') {
        strip_version_prefix(s.drop_first())
    } else {
        s
    }
}

/// `v` without any leading `v` or `V`.
fn strip_version_prefix_chars(v: &Vec<char>) -> (r: Vec<char>)
    ensures
        r@ == strip_version_prefix(v@),
{
    let mut a: usize = 0;
    assert(v@.subrange(0, v@.len() as int) =~= v@);
    while a < v.len() && (v[a] == 'v' || v[a] == 'V')
        invariant
            a <= v.len(),
            strip_version_prefix(v@) == strip_version_prefix(
                v@.subrange(a as int, v@.len() as int),
            ),
        decreases v.len() - a,
    {
        assert(v@.subrange(a as int, v@.len() as int).drop_first() =~= v@.subrange(
            a + 1,
            v@.len() as int,
        ));
        a += 1;
    }
    sub_chars(v, a, v.len())
}

/// The version that a release tag names, if it is a version: the trimmed tag without its
/// leading `v`/`V` characters.
pub open spec fn version_from_tag_seq(tag: Seq<char>) -> Option<Seq<char>> {
    let t = trim_seq(tag);
    if parse_version_parts_seq(t) is Some {
        Some(strip_version_prefix(t))
    } else {
        None
    }
}

/// The version that a release tag names, if it is a version.
pub fn version_from_tag(tag_name: &str) -> (r: Option<String>)
    ensures
        match r {
            Some(v) => version_from_tag_seq(tag_name@) == Some(v@),
            None => version_from_tag_seq(tag_name@) is None,
        },
{
    let t = trim_str(tag_name);
    if parse_version_parts(t.as_str()).is_some() {
        let tv = chars_of(t.as_str());
        let stripped = strip_version_prefix_chars(&tv);
        Some(string_of(&stripped))
    } else {
        None
    }
}

// ---------------------------------------------------------------------------
// Release metadata
// ---------------------------------------------------------------------------

/// A value of a JSON field that may be text or a non-negative integer.
#[derive(Clone, Debug)]
pub enum JsonField {
    /// The field is absent.
    Missing,
    /// The field is a string.
    Text(String),
    /// The field is an integer that fits in a `u64`.
    Unsigned(u64),
    /// The field holds another kind of value.
    Other,
}

/// What a JSON field that may be text or a number reads as: trimmed non-empty text, or the
/// number in decimal.
pub open spec fn json_string_or_u64_seq(field: JsonField) -> Option<Seq<char>> {
    match field {
        JsonField::Text(s) => if trim_seq(s@).len() == 0 {
            None
        } else {
            Some(trim_seq(s@))
        },
        JsonField::Unsigned(n) => Some(decimal_string(n as nat)),
        _ => None,
    }
}

/// The text of a JSON field that may be text or a number.
pub fn json_string_or_u64(field: &JsonField) -> (r: Option<String>)
    ensures
        match r {
            Some(s) => json_string_or_u64_seq(*field) == Some(s@),
            None => json_string_or_u64_seq(*field) is None,
        },
{
    match field {
        JsonField::Text(s) => {
            let t = trim_str(s.as_str());
            let tv = chars_of(t.as_str());
            if tv.len() == 0 {
                None
            } else {
                Some(t)
            }
        },
        JsonField::Unsigned(n) => Some(decimal_of(*n)),
        _ => None,
    }
}

/// One asset of a release: its file name and download address, when present.
#[derive(Clone, Debug)]
pub struct ReleaseAssetInfo {
    pub name: Option<String>,
    pub browser_download_url: Option<String>,
}

/// The metadata of a published release that the update check reads.
#[derive(Clone, Debug)]
pub struct ReleaseInfo {
    pub name: Option<String>,
    pub tag_name: Option<String>,
    pub html_url: Option<String>,
    pub body: Option<String>,
    pub published_at: Option<String>,
    /// The release's assets; `None` when the metadata lists none.
    pub assets: Option<Vec<ReleaseAssetInfo>>,
}

/// The build-info document published with a release.
#[derive(Clone, Debug)]
pub struct BuildInfoDocument {
    pub version: Option<String>,
    pub commit: Option<String>,
    pub built_at_unix: JsonField,
    pub built_at: JsonField,
}

/// Whether `f` is what a member `v` of a JSON document reads as: missing, a string, a
/// number written with decimal digits alone that fits in a `u64`, or something else.
pub open spec fn json_field_is(f: JsonField, v: Option<JsonData>) -> bool {
    match v {
        None => f is Missing,
        Some(JsonData::Text(s)) => f matches JsonField::Text(t) && t@ == s,
        Some(JsonData::Number(n)) => match number_u64(n) {
            Some(k) => f == JsonField::Unsigned(k),
            None => f is Other,
        },
        Some(_) => f is Other,
    }
}

/// What the member `key` of a JSON value reads as.
fn json_field_of(v: &JsonValue, key: &str) -> (r: JsonField)
    ensures
        json_field_is(r, member(v@, key@)),
{
    match v.get(key) {
        None => JsonField::Missing,
        Some(x) => match x {
            JsonValue::Text(s) => JsonField::Text(s.clone()),
            _ => match x.as_u64() {
                Some(n) => JsonField::Unsigned(n),
                None => JsonField::Other,
            },
        },
    }
}

/// Whether `info` holds what a release's metadata `d` says: its text members `name`,
/// `tag_name`, `html_url`, `body` and `published_at`, and, when `assets` is an array,
/// the text members `name` and `browser_download_url` of each of its items.
pub open spec fn release_info_is(info: ReleaseInfo, d: JsonData) -> bool {
    &&& opt_string(info.name) == text_of(member(d, "name"@))
    &&& opt_string(info.tag_name) == text_of(member(d, "tag_name"@))
    &&& opt_string(info.html_url) == text_of(member(d, "html_url"@))
    &&& opt_string(info.body) == text_of(member(d, "body"@))
    &&& opt_string(info.published_at) == text_of(member(d, "published_at"@))
    &&& match member(d, "assets"@) {
        Some(JsonData::Array(items)) => info.assets matches Some(a) && a@.len() == items.len() && forall|
            i: int,
        |
            0 <= i < items.len() ==> opt_string(#[trigger] a@[i].name) == text_of(
                member(items[i], "name"@),
            ) && opt_string(a@[i].browser_download_url) == text_of(
                member(items[i], "browser_download_url"@),
            ),
        _ => info.assets is None,
    }
}

/// The assets listed by the items of an array.
fn assets_of(items: &Vec<JsonValue>) -> (r: Vec<ReleaseAssetInfo>)
    ensures
        r@.len() == items@.len(),
        forall|i: int|
            0 <= i < items@.len() ==> opt_string(#[trigger] r@[i].name) == text_of(
                member(items@[i]@, "name"@),
            ) && opt_string(r@[i].browser_download_url) == text_of(
                member(items@[i]@, "browser_download_url"@),
            ),
{
    let mut out: Vec<ReleaseAssetInfo> = Vec::new();
    let mut i: usize = 0;
    while i < items.len()
        invariant
            i <= items@.len(),
            out@.len() == i,
            forall|k: int|
                0 <= k < i ==> opt_string(#[trigger] out@[k].name) == text_of(
                    member(items@[k]@, "name"@),
                ) && opt_string(out@[k].browser_download_url) == text_of(
                    member(items@[k]@, "browser_download_url"@),
                ),
        decreases items.len() - i,
    {
        let item = &items[i];
        out.push(
            ReleaseAssetInfo {
                name: text_member(item, "name"),
                browser_download_url: text_member(item, "browser_download_url"),
            },
        );
        i += 1;
    }
    out
}

/// The release that a release's metadata describes.
pub fn release_info_of(d: &JsonValue) -> (r: ReleaseInfo)
    ensures
        release_info_is(r, d@),
{
    let assets = match d.get("assets") {
        Some(JsonValue::Array(items)) => {
            proof {
                lemma_array_view(*items);
            }
            Some(assets_of(items))
        },
        _ => None,
    };
    ReleaseInfo {
        name: text_member(d, "name"),
        tag_name: text_member(d, "tag_name"),
        html_url: text_member(d, "html_url"),
        body: text_member(d, "body"),
        published_at: text_member(d, "published_at"),
        assets,
    }
}

/// The release that the text of a release's metadata describes; refused with the
/// reader's message when the text is no JSON.
pub fn release_info_from_json(text: &str) -> (r: Result<ReleaseInfo, String>)
    ensures
        match json_parse(text@) {
            Ok(d) => r matches Ok(info) && release_info_is(info, d),
            Err(m) => r matches Err(e) && e@ == "Failed to parse update response: "@ + m,
        },
{
    match parse_json(text) {
        Ok(d) => Ok(release_info_of(&d)),
        Err(e) => Err(concat2("Failed to parse update response: ", e.as_str())),
    }
}

/// Whether `doc` holds what a build-info document `d` says: its text members `version`
/// and `commit`, and what its members `built_at_unix` and `built_at` read as.
pub open spec fn build_info_document_is(doc: BuildInfoDocument, d: JsonData) -> bool {
    &&& opt_string(doc.version) == text_of(member(d, "version"@))
    &&& opt_string(doc.commit) == text_of(member(d, "commit"@))
    &&& json_field_is(doc.built_at_unix, member(d, "built_at_unix"@))
    &&& json_field_is(doc.built_at, member(d, "built_at"@))
}

/// The build-info document that a text holds; none when the text is no JSON.
pub fn build_info_document_from_json(text: &str) -> (r: Option<BuildInfoDocument>)
    ensures
        match json_parse(text@) {
            Ok(d) => r matches Some(doc) && build_info_document_is(doc, d),
            Err(_) => r is None,
        },
{
    match parse_json(text) {
        Ok(d) => Some(
            BuildInfoDocument {
                version: text_member(&d, "version"),
                commit: text_member(&d, "commit"),
                built_at_unix: json_field_of(&d, "built_at_unix"),
                built_at: json_field_of(&d, "built_at"),
            },
        ),
        Err(_) => None,
    }
}

/// A downloadable asset chosen for this platform.
#[derive(Clone, Debug)]
pub struct ReleaseAsset {
    pub name: String,
    pub url: String,
}

/// The characters of an optional string, empty when absent.
pub open spec fn text_or_empty(s: Option<String>) -> Seq<char> {
    match s {
        Some(t) => t@,
        None => Seq::empty(),
    }
}

/// The characters of an optional string, empty when absent.
fn chars_or_empty(s: &Option<String>) -> (r: Vec<char>)
    ensures
        r@ == text_or_empty(*s),
{
    match s {
        Some(t) => chars_of(t.as_str()),
        None => Vec::new(),
    }
}

/// The pieces of an asset name separated by `-` or `_`.
pub open spec fn name_tokens(name: Seq<char>) -> Seq<Seq<char>> {
    split_on(name.map_values(|c: char| if c == '_' { '-' } else { c }), '-')
}

/// The version that the first version-like token of `tokens` gives, if any.
pub open spec fn version_in_tokens(tokens: Seq<Seq<char>>) -> Option<Seq<char>>
    decreases tokens.len(),
{
    if tokens.len() == 0 {
        None
    } else if parse_version_parts_seq(tokens[0]) is Some {
        Some(strip_version_prefix(tokens[0]))
    } else {
        version_in_tokens(tokens.drop_first())
    }
}

/// The version that the first asset name holding a version-like token gives, if any.
pub open spec fn version_in_asset_names(names: Seq<Seq<char>>) -> Option<Seq<char>>
    decreases names.len(),
{
    if names.len() == 0 {
        None
    } else if version_in_tokens(name_tokens(names[0])) is Some {
        version_in_tokens(name_tokens(names[0]))
    } else {
        version_in_asset_names(names.drop_first())
    }
}

/// The names of release assets, empty where an asset has none.
pub open spec fn asset_names(assets: Seq<ReleaseAssetInfo>) -> Seq<Seq<char>> {
    Seq::new(assets.len(), |i: int| text_or_empty(assets[i].name))
}

/// The version-like token of a name, if any.
fn version_in_name(name: &Vec<char>) -> (r: Option<Vec<char>>)
    ensures
        match r {
            Some(v) => version_in_tokens(name_tokens(name@)) == Some(v@),
            None => version_in_tokens(name_tokens(name@)) is None,
        },
{
    let mut dashed: Vec<char> = Vec::new();
    let mut i: usize = 0;
    while i < name.len()
        invariant
            i <= name.len(),
            dashed@ == name@.take(i as int).map_values(
                |c: char| if c == '_' { '-' } else { c },
            ),
        decreases name.len() - i,
    {
        let c = name[i];
        dashed.push(if c == '_' { '-' } else { c });
        assert(name@.take(i + 1) =~= name@.take(i as int).push(c));
        assert(dashed@ =~= name@.take(i + 1).map_values(
            |c: char| if c == '_' { '-' } else { c },
        ));
        i += 1;
    }
    assert(name@.take(name@.len() as int) =~= name@);
    let tokens = split_chars(&dashed, '-');
    let ghost tv = vecs_view(tokens@);
    let mut k: usize = 0;
    assert(tv.skip(0) =~= tv);
    while k < tokens.len()
        invariant
            k <= tokens@.len(),
            tv == vecs_view(tokens@),
            tv == name_tokens(name@),
            version_in_tokens(tv) == version_in_tokens(tv.skip(k as int)),
        decreases tokens.len() - k,
    {
        assert(tv.skip(k as int)[0] == tokens@[k as int]@);
        assert(tv.skip(k as int).drop_first() =~= tv.skip(k + 1));
        let token = string_of(&tokens[k]);
        if parse_version_parts(token.as_str()).is_some() {
            let stripped = strip_version_prefix_chars(&tokens[k]);
            return Some(stripped);
        }
        k += 1;
    }
    None
}

/// The version that the release's asset names give, if any.
pub fn version_from_assets(assets: &[ReleaseAssetInfo]) -> (r: Option<String>)
    ensures
        match r {
            Some(v) => version_in_asset_names(asset_names(assets@)) == Some(v@),
            None => version_in_asset_names(asset_names(assets@)) is None,
        },
{
    let ghost names = asset_names(assets@);
    let mut i: usize = 0;
    assert(names.skip(0) =~= names);
    while i < assets.len()
        invariant
            i <= assets@.len(),
            names == asset_names(assets@),
            version_in_asset_names(names) == version_in_asset_names(names.skip(i as int)),
        decreases assets.len() - i,
    {
        assert(names.skip(i as int)[0] == names[i as int]);
        assert(names.skip(i as int).drop_first() =~= names.skip(i + 1));
        let name = chars_or_empty(&assets[i].name);
        if let Some(v) = version_in_name(&name) {
            return Some(string_of(&v));
        }
        i += 1;
    }
    None
}

/// Whether `c` ends a commit id in a release body: whitespace or `.`.
pub open spec fn commit_char_pred() -> spec_fn(char) -> bool {
    |c: char| !(is_white_space(c) || c == '.')
}

/// The commit id that a release body names after `Commit:`, if any.
pub open spec fn commit_from_release_body_seq(body: Seq<char>) -> Option<Seq<char>> {
    match find_seq(body, "Commit:"@) {
        Some(i) => {
            let after = trim_start_seq(body.skip(i + "Commit:"@.len()));
            let commit = trim_seq(take_while_seq(after, commit_char_pred()));
            if commit.len() == 0 {
                None
            } else {
                Some(commit)
            }
        },
        None => None,
    }
}

/// The commit id that a release body names after `Commit:`, if any.
pub fn commit_from_release_body(body: &str) -> (r: Option<String>)
    ensures
        match r {
            Some(c) => commit_from_release_body_seq(body@) == Some(c@),
            None => commit_from_release_body_seq(body@) is None,
        },
{
    let b = chars_of(body);
    let marker = chars_of("Commit:");
    let i = match find_chars(&b, &marker) {
        Some(i) => i,
        None => {
            return None;
        },
    };
    proof {
        assert(find_seq(b@, marker@) == Some(i as int));
        crate::text::lemma_find_from_occurs(b@, marker@, 0, i as int);
        assert(i + marker@.len() <= b@.len());
    }
    let mlen = marker.len();
    assert(i + mlen <= b.len());
    let rest = sub_chars(&b, i + mlen, b.len());
    assert(rest@ =~= b@.skip(i + marker@.len()));
    let trimmed = trim_chars(&rest);
    // the start of `trimmed` is where `trim_start` stops; find the commit there
    let after = {
        let mut a: usize = 0;
        assert(rest@.subrange(0, rest@.len() as int) =~= rest@);
        while a < rest.len() && is_whitespace(rest[a])
            invariant
                a <= rest.len(),
                trim_start_seq(rest@) == trim_start_seq(rest@.subrange(a as int, rest@.len() as int)),
            decreases rest.len() - a,
        {
            assert(rest@.subrange(a as int, rest@.len() as int).drop_first() =~= rest@.subrange(
                a + 1,
                rest@.len() as int,
            ));
            a += 1;
        }
        sub_chars(&rest, a, rest.len())
    };
    let mut j: usize = 0;
    while j < after.len() && !(is_whitespace(after[j]) || after[j] == '.')
        invariant
            j <= after.len(),
            forall|k: int| 0 <= k < j ==> (commit_char_pred())(#[trigger] after@[k]),
        decreases after.len() - j,
    {
        j += 1;
    }
    proof {
        lemma_take_while(after@, commit_char_pred(), j as int);
    }
    assert(after@.subrange(0, j as int) =~= after@.take(j as int));
    let piece = sub_chars(&after, 0, j);
    let commit = trim_chars(&piece);
    if commit.len() == 0 {
        None
    } else {
        Some(string_of(&commit))
    }
}

/// Whether an asset can be offered for this platform: it has a name and an address, and
/// its lowercased name ends with `suffix`.
pub open spec fn asset_qualifies(asset: ReleaseAssetInfo, suffix: Seq<char>) -> bool {
    let name = text_or_empty(asset.name);
    let url = text_or_empty(asset.browser_download_url);
    name.len() > 0 && url.len() > 0 && ends_with_seq(ascii_lowercase_seq(name), suffix)
}

/// Whether an asset is marked for this platform: its lowercased name or address holds
/// `marker`.
pub open spec fn asset_preferred(asset: ReleaseAssetInfo, marker: Seq<char>) -> bool {
    contains_seq(ascii_lowercase_seq(text_or_empty(asset.name)), marker) || contains_seq(
        ascii_lowercase_seq(text_or_empty(asset.browser_download_url)),
        marker,
    )
}

/// The position of the first asset at or after `k` that qualifies and, when `need_marker`,
/// is marked for this platform.
pub open spec fn first_asset_from(
    assets: Seq<ReleaseAssetInfo>,
    suffix: Seq<char>,
    marker: Seq<char>,
    need_marker: bool,
    k: int,
) -> Option<int>
    decreases assets.len() - k,
{
    if k < 0 || k >= assets.len() {
        None
    } else if asset_qualifies(assets[k], suffix) && (!need_marker || asset_preferred(
        assets[k],
        marker,
    )) {
        Some(k)
    } else {
        first_asset_from(assets, suffix, marker, need_marker, k + 1)
    }
}

/// The asset to offer: the first qualifying asset marked for this platform, else the
/// first qualifying asset.
pub open spec fn selected_asset_index(
    assets: Seq<ReleaseAssetInfo>,
    suffix: Seq<char>,
    marker: Seq<char>,
) -> Option<int> {
    match first_asset_from(assets, suffix, marker, true, 0) {
        Some(i) => Some(i),
        None => first_asset_from(assets, suffix, marker, false, 0),
    }
}

/// What selecting the asset to install gives: its name and address, or the message of
/// why the release offers none.
pub open spec fn select_update_asset_spec(
    assets: Option<Vec<ReleaseAssetInfo>>,
    suffix: Seq<char>,
    marker: Seq<char>,
) -> Result<(Seq<char>, Seq<char>), Seq<char>> {
    match assets {
        None => Err("Latest Basalt release metadata is missing assets."@),
        Some(list) => match selected_asset_index(list@, suffix, marker) {
            Some(i) => Ok((text_or_empty(list@[i].name), text_or_empty(list@[i].browser_download_url))),
            None => Err("Latest Basalt release has no "@ + suffix + " asset for this platform."@),
        },
    }
}

/// The asset of a release to install on this platform, whose file name ends with
/// `preferred_suffix` and preferably holds `preferred_marker` (both lowercase).
pub fn select_update_asset(
    assets: &Option<Vec<ReleaseAssetInfo>>,
    preferred_suffix: &str,
    preferred_marker: &str,
) -> (r: Result<ReleaseAsset, String>)
    ensures
        match assets {
            None => r matches Err(e) && e@ == "Latest Basalt release metadata is missing assets."@,
            Some(list) => match selected_asset_index(list@, preferred_suffix@, preferred_marker@) {
                Some(i) => r matches Ok(a) && a.name@ == text_or_empty(list@[i].name) && a.url@
                    == text_or_empty(list@[i].browser_download_url),
                None => r matches Err(e) && e@ == "Latest Basalt release has no "@
                    + preferred_suffix@ + " asset for this platform."@,
            },
        },
{
    let list = match assets {
        Some(list) => list,
        None => {
            return Err("Latest Basalt release metadata is missing assets.".to_owned());
        },
    };
    let suffix = chars_of(preferred_suffix);
    let marker = chars_of(preferred_marker);
    let mut fallback: Option<usize> = None;
    let mut i: usize = 0;
    while i < list.len()
        invariant
            i <= list@.len(),
            *assets == Some(*list),
            suffix@ == preferred_suffix@,
            marker@ == preferred_marker@,
            first_asset_from(list@, suffix@, marker@, true, 0) == first_asset_from(
                list@,
                suffix@,
                marker@,
                true,
                i as int,
            ),
            match fallback {
                Some(f) => first_asset_from(list@, suffix@, marker@, false, 0) == Some(f as int)
                    && f < i,
                None => first_asset_from(list@, suffix@, marker@, false, 0) == first_asset_from(
                    list@,
                    suffix@,
                    marker@,
                    false,
                    i as int,
                ),
            },
        decreases list.len() - i,
    {
        let asset = &list[i];
        let name = chars_or_empty(&asset.name);
        let url = chars_or_empty(&asset.browser_download_url);
        let name_lower = chars_to_ascii_lowercase(&name);
        let url_lower = chars_to_ascii_lowercase(&url);
        if name.len() > 0 && url.len() > 0 && chars_ends_with(&name_lower, &suffix) {
            if chars_contains(&name_lower, &marker) || chars_contains(&url_lower, &marker) {
                let chosen = ReleaseAsset { name: string_of(&name), url: string_of(&url) };
                return Ok(chosen);
            }
            if fallback.is_none() {
                fallback = Some(i);
            }
        }
        i += 1;
    }
    match fallback {
        Some(f) => {
            let asset = &list[f];
            let name = chars_or_empty(&asset.name);
            let url = chars_or_empty(&asset.browser_download_url);
            Ok(ReleaseAsset { name: string_of(&name), url: string_of(&url) })
        },
        None => Err(
            crate::text::concat3(
                "Latest Basalt release has no ",
                preferred_suffix,
                " asset for this platform.",
            ),
        ),
    }
}

/// The position of the first asset at or after `k` that has a download address and a
/// name equal to `target` up to ASCII case.
pub open spec fn asset_url_index_from(
    assets: Seq<ReleaseAssetInfo>,
    target: Seq<char>,
    k: int,
) -> Option<int>
    decreases assets.len() - k,
{
    if k < 0 || k >= assets.len() {
        None
    } else if assets[k].name is Some && eq_ignore_ascii_case_seq(
        assets[k].name->0@,
        target,
    ) && assets[k].browser_download_url is Some {
        Some(k)
    } else {
        asset_url_index_from(assets, target, k + 1)
    }
}

/// The download address of the first asset named `target_name` (up to ASCII case) that
/// has one.
pub fn find_asset_url(assets: &Option<Vec<ReleaseAssetInfo>>, target_name: &str) -> (r: Option<
    String,
>)
    ensures
        match assets {
            None => r is None,
            Some(list) => match asset_url_index_from(list@, target_name@, 0) {
                Some(i) => r matches Some(u) && u@ == list@[i].browser_download_url->0@,
                None => r is None,
            },
        },
{
    let list = match assets {
        Some(list) => list,
        None => {
            return None;
        },
    };
    let target = chars_of(target_name);
    let mut i: usize = 0;
    while i < list.len()
        invariant
            i <= list@.len(),
            *assets == Some(*list),
            target@ == target_name@,
            asset_url_index_from(list@, target@, 0) == asset_url_index_from(
                list@,
                target@,
                i as int,
            ),
        decreases list.len() - i,
    {
        let asset = &list[i];
        match (&asset.name, &asset.browser_download_url) {
            (Some(name), Some(url)) => {
                let n = chars_of(name.as_str());
                if chars_eq_ignore_ascii_case(&n, &target) {
                    return Some(url.clone());
                }
            },
            _ => {},
        }
        i += 1;
    }
    None
}

/// The name of the build-info asset that a release may carry.
pub const BUILD_INFO_ASSET_NAME: &'static str = "basalt-build-info.json";

/// The build that a release describes: the build-info document when it names a version
/// or a commit; else the release's tag (or asset names) for the version, the `Commit:`
/// line of its body for the commit, and its publication time for the build time.
pub open spec fn latest_build_info_spec(
    release: ReleaseInfo,
    build_info: Option<BuildInfoDocument>,
) -> (Seq<char>, Seq<char>, Seq<char>) {
    let from_document = match build_info {
        Some(doc) => {
            let version = trim_seq(text_or_empty(doc.version));
            let commit = trim_seq(text_or_empty(doc.commit));
            let build_time = match json_string_or_u64_seq(doc.built_at_unix) {
                Some(t) => t,
                None => match json_string_or_u64_seq(doc.built_at) {
                    Some(t) => t,
                    None => Seq::empty(),
                },
            };
            if version.len() > 0 || commit.len() > 0 {
                Some((version, commit, build_time))
            } else {
                None
            }
        },
        None => None,
    };
    match from_document {
        Some(info) => info,
        None => {
            let tag = trim_seq(text_or_empty(release.tag_name));
            let version = match version_from_tag_seq(tag) {
                Some(v) => v,
                None => match release.assets {
                    Some(list) => match version_in_asset_names(asset_names(list@)) {
                        Some(v) => v,
                        None => tag,
                    },
                    None => tag,
                },
            };
            let commit = match commit_from_release_body_seq(text_or_empty(release.body)) {
                Some(c) => c,
                None => Seq::empty(),
            };
            (version, commit, text_or_empty(release.published_at))
        },
    }
}

/// The build that a release describes; `build_info` is the release's build-info document
/// when it has one that could be fetched and read.
pub fn latest_build_info(release: &ReleaseInfo, build_info: &Option<BuildInfoDocument>) -> (r:
    BasaltBuildInfo)
    ensures
        (r.version@, r.commit@, r.build_time@) == latest_build_info_spec(*release, *build_info),
{
    if let Some(doc) = build_info {
        let version_raw = chars_or_empty(&doc.version);
        let commit_raw = chars_or_empty(&doc.commit);
        let version = trim_chars(&version_raw);
        let commit = trim_chars(&commit_raw);
        let build_time = match json_string_or_u64(&doc.built_at_unix) {
            Some(t) => t,
            None => match json_string_or_u64(&doc.built_at) {
                Some(t) => t,
                None => String::new(),
            },
        };
        if version.len() > 0 || commit.len() > 0 {
            return BasaltBuildInfo {
                version: string_of(&version),
                commit: string_of(&commit),
                build_time,
            };
        }
    }
    let tag_raw = chars_or_empty(&release.tag_name);
    let tag = trim_chars(&tag_raw);
    let tag_string = string_of(&tag);
    let version = match version_from_tag(tag_string.as_str()) {
        Some(v) => v,
        None => {
            let from_assets = match &release.assets {
                Some(list) => version_from_assets(list.as_slice()),
                None => None,
            };
            match from_assets {
                Some(v) => v,
                None => string_of(&tag),
            }
        },
    };
    let body = chars_or_empty(&release.body);
    let body_string = string_of(&body);
    let commit = match commit_from_release_body(body_string.as_str()) {
        Some(c) => c,
        None => String::new(),
    };
    let published = chars_or_empty(&release.published_at);
    BasaltBuildInfo { version, commit, build_time: string_of(&published) }
}

/// The outcome of checking for an update.
#[derive(Clone, Debug)]
pub struct UpdateCheckResult {
    pub current: BasaltBuildInfo,
    pub latest: BasaltBuildInfo,
    pub release_name: String,
    pub release_page_url: String,
    pub asset_name: String,
    pub asset_url: String,
    pub update_available: bool,
}

/// The outcome of checking `release` for an update of the running build `current`: the
/// asset for this platform (or why there is none), the build the release describes, and
/// whether it is newer. `build_info` is the release's build-info document when it has one
/// that could be fetched and read.
pub fn check_for_updates(
    release: &ReleaseInfo,
    build_info: &Option<BuildInfoDocument>,
    current: BasaltBuildInfo,
    preferred_suffix: &str,
    preferred_marker: &str,
) -> (r: Result<UpdateCheckResult, String>)
    ensures
        match select_update_asset_spec(release.assets, preferred_suffix@, preferred_marker@) {
            Err(m) => r matches Err(e) && e@ == m,
            Ok(asset) => r matches Ok(u) && u.asset_name@ == asset.0 && u.asset_url@ == asset.1
                && (u.latest.version@, u.latest.commit@, u.latest.build_time@)
                == latest_build_info_spec(*release, *build_info) && u.current == current
                && u.update_available == is_newer_build_spec(current, u.latest)
                && u.release_name@ == (match release.name {
                Some(n) => n@,
                None => match release.tag_name {
                    Some(t) => t@,
                    None => "Latest Basalt release"@,
                },
            }) && u.release_page_url@ == (match release.html_url {
                Some(h) => h@,
                None => "https://github.com/HungLo2020/Basalt/releases/latest"@,
            }),
        },
{
    let asset = select_update_asset(&release.assets, preferred_suffix, preferred_marker)?;
    let latest = latest_build_info(release, build_info);
    let update_available = is_newer_build(&current, &latest);
    let release_name = match &release.name {
        Some(n) => n.clone(),
        None => match &release.tag_name {
            Some(t) => t.clone(),
            None => "Latest Basalt release".to_owned(),
        },
    };
    let release_page_url = match &release.html_url {
        Some(h) => h.clone(),
        None => "https://github.com/HungLo2020/Basalt/releases/latest".to_owned(),
    };
    Ok(
        UpdateCheckResult {
            current,
            latest,
            release_name,
            release_page_url,
            asset_name: asset.name,
            asset_url: asset.url,
            update_available,
        },
    )
}

// ---------------------------------------------------------------------------
// Downloading
// ---------------------------------------------------------------------------

/// An asset file name with every character other than ASCII letters, digits, `.`, `-` and
/// `_` replaced by `_`.
pub open spec fn sanitized_asset_name(name: Seq<char>) -> Seq<char> {
    name.map_values(
        |c: char|
            if ('a' <= c <= 'z') || ('A' <= c <= 'Z') || ('0' <= c <= '9') || c == '.' || c
                == '-' || c == '_' {
                c
            } else {
                '_'
            },
    )
}

/// The file name under which an update asset is downloaded:
/// `basalt-update-<process id>-<unix time>-<sanitized asset name>`.
pub open spec fn update_file_name_spec(process_id: u32, timestamp: u64, asset_name: Seq<char>) -> Seq<
    char,
> {
    "basalt-update-"@ + decimal_string(process_id as nat) + seq!['-'] + decimal_string(
        timestamp as nat,
    ) + seq!['-'] + sanitized_asset_name(asset_name)
}

/// The file name under which an update asset is downloaded.
pub fn update_file_name(process_id: u32, timestamp: u64, asset_name: &str) -> (r: String)
    ensures
        r@ == update_file_name_spec(process_id, timestamp, asset_name@),
{
    let mut out: Vec<char> = Vec::new();
    append_str(&mut out, "basalt-update-");
    push_decimal(&mut out, process_id as u64);
    out.push('-');
    push_decimal(&mut out, timestamp);
    out.push('-');
    let name = chars_of(asset_name);
    let ghost prefix = out@;
    let mut i: usize = 0;
    while i < name.len()
        invariant
            i <= name.len(),
            out@ == prefix + sanitized_asset_name(name@.take(i as int)),
        decreases name.len() - i,
    {
        let c = name[i];
        let keep = ('a' <= c && c <= 'z') || ('A' <= c && c <= 'Z') || ('0' <= c && c <= '9')
            || c == '.' || c == '-' || c == '_';
        out.push(if keep { c } else { '_' });
        assert(name@.take(i + 1) =~= name@.take(i as int).push(c));
        assert(sanitized_asset_name(name@.take(i + 1)) =~= sanitized_asset_name(
            name@.take(i as int),
        ).push(if keep { c } else { '_' }));
        i += 1;
    }
    assert(name@.take(name@.len() as int) =~= name@);
    assert(out@ =~= update_file_name_spec(process_id, timestamp, asset_name@));
    string_of(&out)
}

/// An update that was downloaded: where its installer was saved.
#[derive(Clone, Debug)]
pub struct DownloadedUpdate {
    pub installer_path: String,
}

/// Where and under which file name to download an available update.
#[derive(Clone, Debug)]
pub struct UpdateDownload {
    pub url: String,
    pub file_name: String,
}

/// How to download the update that a check found: refused when no update is available,
/// else the asset's address and the file name to save it under.
pub fn download_update(update: &UpdateCheckResult, process_id: u32, timestamp: u64) -> (r: Result<
    UpdateDownload,
    String,
>)
    ensures
        !update.update_available ==> (r matches Err(e) && e@ == "No Basalt update is available."@),
        update.update_available ==> (r matches Ok(d) && d.url@ == update.asset_url@
            && d.file_name@ == update_file_name_spec(process_id, timestamp, update.asset_name@)),
{
    if !update.update_available {
        return Err("No Basalt update is available.".to_owned());
    }
    let file_name = update_file_name(process_id, timestamp, update.asset_name.as_str());
    Ok(UpdateDownload { url: update.asset_url.clone(), file_name })
}

// ---------------------------------------------------------------------------
// The commit named by a release body
// ---------------------------------------------------------------------------

/// Trimming the start of `s` drops its first `w` characters, all whitespace, and stops
/// at the end or at a character that is not.
proof fn lemma_trim_start_drops(s: Seq<char>) -> (w: int)
    ensures
        0 <= w <= s.len(),
        trim_start_seq(s) == s.skip(w),
        forall|k: int| 0 <= k < w ==> is_white_space(#[trigger] s[k]),
        w < s.len() ==> !is_white_space(s[w]),
    decreases s.len(),
{
    if s.len() > 0 && is_white_space(s[0]) {
        let w0 = lemma_trim_start_drops(s.drop_first());
        assert(s.drop_first().skip(w0) =~= s.skip(w0 + 1));
        assert forall|k: int| 0 <= k < w0 + 1 implies is_white_space(#[trigger] s[k]) by {
            if k > 0 {
                assert(s[k] == s.drop_first()[k - 1]);
            }
        }
        if w0 + 1 < s.len() {
            assert(s[w0 + 1] == s.drop_first()[w0]);
        }
        w0 + 1
    } else {
        assert(s.skip(0) =~= s);
        0
    }
}

/// The longest prefix whose characters satisfy `f` stops at the end or at the first
/// character that does not.
proof fn lemma_take_while_stops(s: Seq<char>, f: spec_fn(char) -> bool) -> (j: int)
    ensures
        0 <= j <= s.len(),
        take_while_seq(s, f) == s.take(j),
        forall|k: int| 0 <= k < j ==> f(#[trigger] s[k]),
        j < s.len() ==> !f(s[j]),
    decreases s.len(),
{
    if s.len() > 0 && f(s[0]) {
        let j0 = lemma_take_while_stops(s.drop_first(), f);
        assert forall|k: int| 0 <= k < j0 + 1 implies f(#[trigger] s[k]) by {
            if k > 0 {
                assert(s[k] == s.drop_first()[k - 1]);
            }
        }
        if j0 + 1 < s.len() {
            assert(s[j0 + 1] == s.drop_first()[j0]);
        }
        lemma_take_while(s, f, j0 + 1);
        j0 + 1
    } else {
        lemma_take_while(s, f, 0);
        0
    }
}

/// The commit that a release body names is a non-empty run of characters that are
/// neither whitespace nor `.`; in the body it stands right after `Commit:` and optional
/// whitespace, and is followed by whitespace, a `.`, or the end of the body.
pub proof fn lemma_commit_is_the_word_after_marker(body: Seq<char>)
    requires
        commit_from_release_body_seq(body) is Some,
    ensures
        ({
            let c = commit_from_release_body_seq(body)->Some_0;
            &&& c.len() > 0
            &&& forall|k: int| 0 <= k < c.len() ==> !is_white_space(#[trigger] c[k]) && c[k] != '.'
            &&& exists|i: int, p: int|
                #![trigger body.subrange(i, i + 7), body.subrange(p, p + c.len())]
                0 <= i && i + 7 <= p && p + c.len() <= body.len()
                    && body.subrange(i, i + 7) == "Commit:"@
                    && (forall|k: int| i + 7 <= k < p ==> is_white_space(#[trigger] body[k]))
                    && body.subrange(p, p + c.len()) == c
                    && (p + c.len() == body.len() || is_white_space(body[p + c.len()])
                        || body[p + c.len()] == '.')
        }),
{
    reveal_strlit("Commit:");
    let marker = "Commit:"@;
    let i = find_seq(body, marker)->Some_0;
    crate::text::lemma_find_from_occurs(body, marker, 0, i);
    let rest = body.skip(i + 7);
    let w = lemma_trim_start_drops(rest);
    let after = trim_start_seq(rest);
    let f = commit_char_pred();
    let j = lemma_take_while_stops(after, f);
    let word = take_while_seq(after, f);
    assert forall|k: int| 0 <= k < word.len() implies !is_white_space(#[trigger] word[k])
        && word[k] != '.' by {
        assert(word[k] == after[k]);
        assert(f(after[k]));
    }
    assert(trim_start_seq(word) == word) by {
        if word.len() > 0 {
            assert(!is_white_space(word[0]));
        }
    }
    assert(crate::text::trim_end_seq(word) == word) by {
        if word.len() > 0 {
            assert(!is_white_space(word[word.len() - 1]));
        }
    }
    let c = commit_from_release_body_seq(body)->Some_0;
    assert(c == word);
    let p = i + 7 + w;
    assert forall|k: int| i + 7 <= k < p implies is_white_space(#[trigger] body[k]) by {
        assert(body[k] == rest[k - (i + 7)]);
    }
    assert(body.subrange(p, p + c.len()) =~= c) by {
        assert forall|k: int| 0 <= k < c.len() implies body.subrange(p, p + c.len())[k] == c[k] by {
            assert(c[k] == after[k]);
            assert(after[k] == rest[w + k]);
            assert(rest[w + k] == body[i + 7 + w + k]);
        }
    }
    if p + c.len() < body.len() {
        assert(body[p + c.len()] == after[j]);
        assert(!f(after[j]));
    }
    assert(body.subrange(i, i + 7) == "Commit:"@);
}

} // verus!
