//! Controller profiles for RetroArch: which published joypad profiles are fetched so
//! that Xbox controllers work without setup.
use vstd::prelude::*;

use crate::json::{
    json_parse, lemma_array_view, member, opt_string, parse_json, text_member, text_of, JsonData,
    JsonValue,
};
use crate::text::concat2;

use crate::text::{chars_contains, chars_of, contains_seq, to_lowercase, unicode_lowercase};

verus! {

broadcast use vstd::string::group_string_axioms;

/// Where the list of published joypad profiles of each input backend is fetched.
pub const JOYPAD_AUTOCONFIG_REPO_API_URL: &'static str =
    "https://api.github.com/repos/libretro/retroarch-joypad-autoconfig/contents";

/// Whether a profile name, lowercased, names an Xbox controller: it contains `xbox`,
/// `x-box` or `microsoft`.
pub open spec fn is_xbox_profile_spec(name: Seq<char>) -> bool {
    let n = unicode_lowercase(name);
    contains_seq(n, "xbox"@) || contains_seq(n, "x-box"@) || contains_seq(n, "microsoft"@)
}

/// Whether a profile name names an Xbox controller.
pub fn is_xbox_profile_name(name: &str) -> (r: bool)
    ensures
        r == is_xbox_profile_spec(name@),
{
    let lowered = to_lowercase(name);
    let v = chars_of(lowered.as_str());
    chars_contains(&v, &chars_of("xbox")) || chars_contains(&v, &chars_of("x-box"))
        || chars_contains(&v, &chars_of("microsoft"))
}

/// The input backends whose profiles are fetched, in order.
pub fn autoconfig_backends() -> (r: Vec<&'static str>)
    ensures
        r@.len() == 2,
        r@[0]@ == "udev"@,
        r@[1]@ == "sdl2"@,
{
    vec!["udev", "sdl2"]
}

/// Where the profile list of an input backend is fetched.
pub fn backend_listing_url(backend: &str) -> (r: String)
    ensures
        r@ == JOYPAD_AUTOCONFIG_REPO_API_URL@ + "/"@ + backend@,
{
    crate::text::concat3(JOYPAD_AUTOCONFIG_REPO_API_URL, "/", backend)
}

/// One entry of a published profile list: its name and download address, when they
/// are text.
#[derive(Clone, Debug)]
pub struct ProfileListing {
    pub name: Option<String>,
    pub download_url: Option<String>,
}

/// The profiles to fetch from a list, in order: those named for an Xbox controller
/// that have a download address, as `(name, address)`.
pub open spec fn profiles_to_fetch_spec(listing: Seq<ProfileListing>) -> Seq<(Seq<char>, Seq<char>)>
    decreases listing.len(),
{
    if listing.len() == 0 {
        Seq::empty()
    } else {
        let prev = profiles_to_fetch_spec(listing.drop_last());
        let e = listing.last();
        match (e.name, e.download_url) {
            (Some(n), Some(u)) => if is_xbox_profile_spec(n@) {
                prev.push((n@, u@))
            } else {
                prev
            },
            _ => prev,
        }
    }
}

/// The contents of a sequence of pairs of strings.
pub open spec fn pairs_view(v: Seq<(String, String)>) -> Seq<(Seq<char>, Seq<char>)> {
    Seq::new(v.len(), |i: int| (v[i].0@, v[i].1@))
}

/// The profiles to fetch from a published list.
pub fn xbox_profiles_to_fetch(listing: &[ProfileListing]) -> (r: Vec<(String, String)>)
    ensures
        pairs_view(r@) == profiles_to_fetch_spec(listing@),
{
    let mut out: Vec<(String, String)> = Vec::new();
    let mut i: usize = 0;
    while i < listing.len()
        invariant
            i <= listing@.len(),
            pairs_view(out@) == profiles_to_fetch_spec(listing@.take(i as int)),
        decreases listing.len() - i,
    {
        let ghost t = listing@.take(i + 1);
        assert(t.drop_last() =~= listing@.take(i as int));
        assert(t.last() == listing@[i as int]);
        let ghost before = pairs_view(out@);
        let e = &listing[i];
        match (&e.name, &e.download_url) {
            (Some(n), Some(u)) => {
                if is_xbox_profile_name(n.as_str()) {
                    out.push((n.clone(), u.clone()));
                    assert(pairs_view(out@) =~= before.push((n@, u@)));
                }
            },
            _ => {},
        }
        i += 1;
    }
    assert(listing@.take(listing@.len() as int) =~= listing@);
    out
}

/// Whether `listing` holds, item for item, the text members `name` and `download_url`
/// of the items `items`.
pub open spec fn profile_listing_is(listing: Seq<ProfileListing>, items: Seq<JsonData>) -> bool {
    &&& listing.len() == items.len()
    &&& forall|i: int|
        0 <= i < items.len() ==> opt_string(#[trigger] listing[i].name) == text_of(
            member(items[i], "name"@),
        ) && opt_string(listing[i].download_url) == text_of(member(items[i], "download_url"@))
}

/// The profiles that the text of a published profile list names; refused with the
/// reader's message when the text is no JSON, and when it is no array.
pub fn profile_listing_from_json(text: &str) -> (r: Result<Vec<ProfileListing>, String>)
    ensures
        match json_parse(text@) {
            Err(m) => r matches Err(e) && e@ == "Failed to parse joypad profile list: "@ + m,
            Ok(JsonData::Array(items)) => r matches Ok(v) && profile_listing_is(v@, items),
            Ok(_) => r matches Err(e) && e@ == "Joypad profile listing has unexpected format"@,
        },
{
    match parse_json(text) {
        Err(e) => Err(concat2("Failed to parse joypad profile list: ", e.as_str())),
        Ok(JsonValue::Array(items)) => {
            proof {
                lemma_array_view(items);
            }
            let mut out: Vec<ProfileListing> = Vec::new();
            let mut i: usize = 0;
            while i < items.len()
                invariant
                    i <= items@.len(),
                    out@.len() == i,
                    forall|k: int|
                        0 <= k < i ==> opt_string(#[trigger] out@[k].name) == text_of(
                            member(items@[k]@, "name"@),
                        ) && opt_string(out@[k].download_url) == text_of(
                            member(items@[k]@, "download_url"@),
                        ),
                decreases items.len() - i,
            {
                let item = &items[i];
                out.push(
                    ProfileListing {
                        name: text_member(item, "name"),
                        download_url: text_member(item, "download_url"),
                    },
                );
                i += 1;
            }
            Ok(out)
        },
        Ok(_) => Err("Joypad profile listing has unexpected format".to_owned()),
    }
}

} // verus!
