use vstd::prelude::*;

verus! {

/// The country part of a weather report.
#[derive(Clone, Debug)]
pub struct OWMSys {
    pub country: String,
}

/// One condition of a weather report: its headline, its description and the
/// code of its icon.
#[derive(Clone, Debug)]
pub struct OWMWeather {
    pub main: String,
    pub description: String,
    pub icon: String,
}

/// The chat emoji shown for a weather icon code, for the codes the weather
/// service documents.
pub open spec fn icon_emoji(icon: Seq<char>) -> Option<Seq<char>> {
    if icon == "01d"@ {
        Some(":sunny:"@)
    } else if icon == "01n"@ {
        Some(":crescent_moon:"@)
    } else if icon == "02d"@ {
        Some(":white_sun_cloud:"@)
    } else if icon == "02n"@ || icon == "03d"@ || icon == "03n"@ || icon == "04d"@ || icon == "04n"@ {
        Some(":cloud:"@)
    } else if icon == "09d"@ || icon == "09n"@ || icon == "10d"@ || icon == "10n"@ {
        Some(":cloud_rain:"@)
    } else if icon == "11d"@ || icon == "11n"@ {
        Some(":cloud_lightning:"@)
    } else if icon == "13d"@ || icon == "13n"@ {
        Some(":cloud_snow:"@)
    } else if icon == "50d"@ || icon == "50n"@ {
        Some(":fog"@)
    } else {
        None
    }
}

/// Whether two strings hold the same characters.
pub fn same_text(a: &str, b: &str) -> (r: bool)
    ensures
        r == (a@ == b@),
{
    let n: usize = a.unicode_len();
    if n != b.unicode_len() {
        return false;
    }
    let mut i: usize = 0;
    while i < n
        invariant
            n == a@.len(),
            n == b@.len(),
            i <= n,
            a@.subrange(0, i as int) == b@.subrange(0, i as int),
        decreases n - i,
    {
        if a.get_char(i) != b.get_char(i) {
            assert(a@[i as int] != b@[i as int]);
            return false;
        }
        assert(a@.subrange(0, i + 1) =~= a@.subrange(0, i as int).push(a@[i as int]));
        assert(b@.subrange(0, i + 1) =~= b@.subrange(0, i as int).push(b@[i as int]));
        i = i + 1;
    }
    assert(a@ =~= a@.subrange(0, n as int));
    assert(b@ =~= b@.subrange(0, n as int));
    true
}

/// The emoji for a documented icon code; other codes are not accepted.
pub fn emoji_for_icon(icon: &str) -> (r: &'static str)
    requires
        icon_emoji(icon@) is Some,
    ensures
        icon_emoji(icon@) == Some(r@),
{
    if same_text(icon, "01d") {
        ":sunny:"
    } else if same_text(icon, "01n") {
        ":crescent_moon:"
    } else if same_text(icon, "02d") {
        ":white_sun_cloud:"
    } else if same_text(icon, "02n") || same_text(icon, "03d") || same_text(icon, "03n")
        || same_text(icon, "04d") || same_text(icon, "04n") {
        ":cloud:"
    } else if same_text(icon, "09d") || same_text(icon, "09n") || same_text(icon, "10d")
        || same_text(icon, "10n") {
        ":cloud_rain:"
    } else if same_text(icon, "11d") || same_text(icon, "11n") {
        ":cloud_lightning:"
    } else if same_text(icon, "13d") || same_text(icon, "13n") {
        ":cloud_snow:"
    } else {
        ":fog"
    }
}

} // verus!
