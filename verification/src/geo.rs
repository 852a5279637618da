//! Geo resolver: best-effort geographic origin of a request.
//!
//! The origin is derived from a prioritized set of untrusted,
//! proxy-supplied headers: the internal reverse-proxy country header wins
//! over the CDN viewer-country header; with neither present the result
//! falls back to `Unknown`/`ZZ`. The country display name comes from a
//! static lookup over the two-letter ISO code; an unrecognized code is
//! used as its own display name.

use vstd::prelude::*;

verus! {

/// Best-effort geographic origin: a display name and a two-letter ISO code.
#[derive(Debug, Clone, PartialEq)]
pub struct GeoInfo {
    pub country: String,
    pub country_iso: String,
}

/// Mathematical value of a [`GeoInfo`].
pub struct GeoInfoView {
    pub country: Seq<char>,
    pub country_iso: Seq<char>,
}

impl View for GeoInfo {
    type V = GeoInfoView;

    open spec fn view(&self) -> GeoInfoView {
        GeoInfoView { country: self.country@, country_iso: self.country_iso@ }
    }
}

/// Display name of a two-letter ISO country code; an unrecognized code is
/// its own display name.
pub open spec fn country_name_spec(iso: Seq<char>) -> Seq<char> {
    if iso == "AT"@ {
        "Austria"@
    } else if iso == "AU"@ {
        "Australia"@
    } else if iso == "BE"@ {
        "Belgium"@
    } else if iso == "BR"@ {
        "Brazil"@
    } else if iso == "CA"@ {
        "Canada"@
    } else if iso == "CH"@ {
        "Switzerland"@
    } else if iso == "CN"@ {
        "China"@
    } else if iso == "CZ"@ {
        "Czechia"@
    } else if iso == "DE"@ {
        "Germany"@
    } else if iso == "DK"@ {
        "Denmark"@
    } else if iso == "ES"@ {
        "Spain"@
    } else if iso == "FI"@ {
        "Finland"@
    } else if iso == "FR"@ {
        "France"@
    } else if iso == "GB"@ {
        "United Kingdom"@
    } else if iso == "IE"@ {
        "Ireland"@
    } else if iso == "IN"@ {
        "India"@
    } else if iso == "IS"@ {
        "Iceland"@
    } else if iso == "IT"@ {
        "Italy"@
    } else if iso == "JP"@ {
        "Japan"@
    } else if iso == "KR"@ {
        "South Korea"@
    } else if iso == "MX"@ {
        "Mexico"@
    } else if iso == "NL"@ {
        "Netherlands"@
    } else if iso == "NO"@ {
        "Norway"@
    } else if iso == "NZ"@ {
        "New Zealand"@
    } else if iso == "PL"@ {
        "Poland"@
    } else if iso == "PT"@ {
        "Portugal"@
    } else if iso == "SE"@ {
        "Sweden"@
    } else if iso == "TW"@ {
        "Taiwan"@
    } else if iso == "US"@ {
        "United States"@
    } else if iso == "ZA"@ {
        "South Africa"@
    } else {
        iso
    }
}

/// Character-for-character string equality.
pub fn str_eq(a: &str, b: &str) -> (r: bool)
    ensures
        r == (a@ == b@),
{
    let n = a.unicode_len();
    if n != b.unicode_len() {
        return false;
    }
    let mut i: usize = 0;
    while i < n
        invariant
            i <= n,
            n == a@.len(),
            n == b@.len(),
            forall|j: int| 0 <= j < i ==> a@[j] == b@[j],
        decreases n - i,
    {
        if a.get_char(i) != b.get_char(i) {
            return false;
        }
        i = i + 1;
    }
    proof {
        assert(a@ =~= b@);
    }
    true
}

/// Display name of a two-letter ISO country code.
pub fn country_name(iso: &str) -> (name: String)
    ensures
        name@ == country_name_spec(iso@),
{
    if str_eq(iso, "AT") {
        String::from_str("Austria")
    } else if str_eq(iso, "AU") {
        String::from_str("Australia")
    } else if str_eq(iso, "BE") {
        String::from_str("Belgium")
    } else if str_eq(iso, "BR") {
        String::from_str("Brazil")
    } else if str_eq(iso, "CA") {
        String::from_str("Canada")
    } else if str_eq(iso, "CH") {
        String::from_str("Switzerland")
    } else if str_eq(iso, "CN") {
        String::from_str("China")
    } else if str_eq(iso, "CZ") {
        String::from_str("Czechia")
    } else if str_eq(iso, "DE") {
        String::from_str("Germany")
    } else if str_eq(iso, "DK") {
        String::from_str("Denmark")
    } else if str_eq(iso, "ES") {
        String::from_str("Spain")
    } else if str_eq(iso, "FI") {
        String::from_str("Finland")
    } else if str_eq(iso, "FR") {
        String::from_str("France")
    } else if str_eq(iso, "GB") {
        String::from_str("United Kingdom")
    } else if str_eq(iso, "IE") {
        String::from_str("Ireland")
    } else if str_eq(iso, "IN") {
        String::from_str("India")
    } else if str_eq(iso, "IS") {
        String::from_str("Iceland")
    } else if str_eq(iso, "IT") {
        String::from_str("Italy")
    } else if str_eq(iso, "JP") {
        String::from_str("Japan")
    } else if str_eq(iso, "KR") {
        String::from_str("South Korea")
    } else if str_eq(iso, "MX") {
        String::from_str("Mexico")
    } else if str_eq(iso, "NL") {
        String::from_str("Netherlands")
    } else if str_eq(iso, "NO") {
        String::from_str("Norway")
    } else if str_eq(iso, "NZ") {
        String::from_str("New Zealand")
    } else if str_eq(iso, "PL") {
        String::from_str("Poland")
    } else if str_eq(iso, "PT") {
        String::from_str("Portugal")
    } else if str_eq(iso, "SE") {
        String::from_str("Sweden")
    } else if str_eq(iso, "TW") {
        String::from_str("Taiwan")
    } else if str_eq(iso, "US") {
        String::from_str("United States")
    } else if str_eq(iso, "ZA") {
        String::from_str("South Africa")
    } else {
        String::from_str(iso)
    }
}

/// View of an optional header value.
pub open spec fn header_view(h: Option<&str>) -> Option<Seq<char>> {
    match h {
        Some(s) => Some(s@),
        None => None,
    }
}

/// Resolution rule: the internal proxy header wins over the CDN header;
/// with neither present the result is `Unknown`/`ZZ`.
pub open spec fn resolve_geo_spec(internal: Option<Seq<char>>, cdn: Option<Seq<char>>) -> GeoInfoView {
    match internal {
        Some(code) => GeoInfoView { country: country_name_spec(code), country_iso: code },
        None => match cdn {
            Some(code) => GeoInfoView { country: country_name_spec(code), country_iso: code },
            None => GeoInfoView { country: "Unknown"@, country_iso: "ZZ"@ },
        },
    }
}

/// Derive the request's geographic origin from the two untrusted headers.
/// Deterministic, no failure path.
pub fn resolve_geo(internal: Option<&str>, cdn: Option<&str>) -> (g: GeoInfo)
    ensures
        g@ == resolve_geo_spec(header_view(internal), header_view(cdn)),
{
    match internal {
        Some(code) => GeoInfo { country: country_name(code), country_iso: String::from_str(code) },
        None => match cdn {
            Some(code) => GeoInfo {
                country: country_name(code),
                country_iso: String::from_str(code),
            },
            None => GeoInfo {
                country: String::from_str("Unknown"),
                country_iso: String::from_str("ZZ"),
            },
        },
    }
}

/// Geo header precedence: when both the internal proxy header and the CDN
/// header are present with different values, the internal header alone
/// decides the result; the CDN header is ignored.
pub proof fn lemma_internal_header_wins(internal: Seq<char>, cdn: Seq<char>)
    requires
        internal != cdn,
    ensures
        resolve_geo_spec(Some(internal), Some(cdn)) == resolve_geo_spec(Some(internal), None),
{
}

} // verus!
