//! Country and language codes of the search provider.
//!
//! A code is read from text without regard to case, and written in lower
//! case, as the provider expects it in a request.
use vstd::prelude::*;
use vstd::string::StringExecFns;

verus! {

/// `text` in upper case, as `str::to_uppercase` writes it.
pub uninterp spec fn uppercase(text: Seq<char>) -> Seq<char>;

/// `text` in lower case, as `str::to_lowercase` writes it.
pub uninterp spec fn lowercase(text: Seq<char>) -> Seq<char>;

/// `str::to_uppercase`: the text with every character in upper case. The
/// result is a function of the text alone, named [`uppercase`].
pub assume_specification[ str::to_uppercase ](text: &str) -> (upper: String)
    ensures
        upper@ == uppercase(text@),
;

/// `str::to_lowercase`: the text with every character in lower case. The
/// result is a function of the text alone, named [`lowercase`].
pub assume_specification[ str::to_lowercase ](text: &str) -> (lower: String)
    ensures
        lower@ == lowercase(text@),
;

/// True when the two texts are the same.
fn same_text(text: &String, name: &str) -> (same: bool)
    ensures
        same == (text@ == name@),
{
    let other: String = name.to_owned();
    *text == other
}

/// What reading a code from `text` gives: the code found under the text's
/// name, or a message that holds `complaint` and the text as it was given.
pub open spec fn reading<Code>(
    found: Option<Code>,
    complaint: Seq<char>,
    text: Seq<char>,
    result: Result<Code, String>,
) -> bool {
    match found {
        Some(code) => result == Ok::<Code, String>(code),
        None => result matches Err(message) && message@ == complaint + text,
    }
}

/// A country for which the search provider serves results.
#[allow(non_camel_case_types)]
#[derive(Debug, Clone, Copy, PartialEq, Eq, Structural)]
pub enum CountryCode {
    ALL,
    AR,
    AU,
    AT,
    BE,
    BR,
    CA,
    CL,
    DK,
    FI,
    FR,
    DE,
    HK,
    IN,
    ID,
    IT,
    JP,
    KR,
    MY,
    MX,
    NL,
    NZ,
    NO,
    CN,
    PL,
    PT,
    PH,
    RU,
    SA,
    ZA,
    ES,
    SE,
    CH,
    TW,
    TR,
    GB,
    US,
}

/// The country that goes by `name`, which is in upper case.
pub open spec fn country_named(name: Seq<char>) -> Option<CountryCode> {
    if name == "ALL"@ {
        Some(CountryCode::ALL)
    } else if name == "AR"@ {
        Some(CountryCode::AR)
    } else if name == "AU"@ {
        Some(CountryCode::AU)
    } else if name == "AT"@ {
        Some(CountryCode::AT)
    } else if name == "BE"@ {
        Some(CountryCode::BE)
    } else if name == "BR"@ {
        Some(CountryCode::BR)
    } else if name == "CA"@ {
        Some(CountryCode::CA)
    } else if name == "CL"@ {
        Some(CountryCode::CL)
    } else if name == "DK"@ {
        Some(CountryCode::DK)
    } else if name == "FI"@ {
        Some(CountryCode::FI)
    } else if name == "FR"@ {
        Some(CountryCode::FR)
    } else if name == "DE"@ {
        Some(CountryCode::DE)
    } else if name == "HK"@ {
        Some(CountryCode::HK)
    } else if name == "IN"@ {
        Some(CountryCode::IN)
    } else if name == "ID"@ {
        Some(CountryCode::ID)
    } else if name == "IT"@ {
        Some(CountryCode::IT)
    } else if name == "JP"@ {
        Some(CountryCode::JP)
    } else if name == "KR"@ {
        Some(CountryCode::KR)
    } else if name == "MY"@ {
        Some(CountryCode::MY)
    } else if name == "MX"@ {
        Some(CountryCode::MX)
    } else if name == "NL"@ {
        Some(CountryCode::NL)
    } else if name == "NZ"@ {
        Some(CountryCode::NZ)
    } else if name == "NO"@ {
        Some(CountryCode::NO)
    } else if name == "CN"@ {
        Some(CountryCode::CN)
    } else if name == "PL"@ {
        Some(CountryCode::PL)
    } else if name == "PT"@ {
        Some(CountryCode::PT)
    } else if name == "PH"@ {
        Some(CountryCode::PH)
    } else if name == "RU"@ {
        Some(CountryCode::RU)
    } else if name == "SA"@ {
        Some(CountryCode::SA)
    } else if name == "ZA"@ {
        Some(CountryCode::ZA)
    } else if name == "ES"@ {
        Some(CountryCode::ES)
    } else if name == "SE"@ {
        Some(CountryCode::SE)
    } else if name == "CH"@ {
        Some(CountryCode::CH)
    } else if name == "TW"@ {
        Some(CountryCode::TW)
    } else if name == "TR"@ {
        Some(CountryCode::TR)
    } else if name == "GB"@ {
        Some(CountryCode::GB)
    } else if name == "US"@ {
        Some(CountryCode::US)
    } else {
        None
    }
}

/// The country's code in lower case.
pub open spec fn country_text(code: CountryCode) -> Seq<char> {
    match code {
        CountryCode::ALL => "all"@,
        CountryCode::AR => "ar"@,
        CountryCode::AU => "au"@,
        CountryCode::AT => "at"@,
        CountryCode::BE => "be"@,
        CountryCode::BR => "br"@,
        CountryCode::CA => "ca"@,
        CountryCode::CL => "cl"@,
        CountryCode::DK => "dk"@,
        CountryCode::FI => "fi"@,
        CountryCode::FR => "fr"@,
        CountryCode::DE => "de"@,
        CountryCode::HK => "hk"@,
        CountryCode::IN => "in"@,
        CountryCode::ID => "id"@,
        CountryCode::IT => "it"@,
        CountryCode::JP => "jp"@,
        CountryCode::KR => "kr"@,
        CountryCode::MY => "my"@,
        CountryCode::MX => "mx"@,
        CountryCode::NL => "nl"@,
        CountryCode::NZ => "nz"@,
        CountryCode::NO => "no"@,
        CountryCode::CN => "cn"@,
        CountryCode::PL => "pl"@,
        CountryCode::PT => "pt"@,
        CountryCode::PH => "ph"@,
        CountryCode::RU => "ru"@,
        CountryCode::SA => "sa"@,
        CountryCode::ZA => "za"@,
        CountryCode::ES => "es"@,
        CountryCode::SE => "se"@,
        CountryCode::CH => "ch"@,
        CountryCode::TW => "tw"@,
        CountryCode::TR => "tr"@,
        CountryCode::GB => "gb"@,
        CountryCode::US => "us"@,
    }
}

impl Default for CountryCode {
    /// The United States.
    fn default() -> (code: CountryCode)
        ensures
            code == CountryCode::US,
    {
        CountryCode::US
    }
}

impl CountryCode {
    /// The country that goes by `name`, which is in upper case.
    pub fn named(name: &str) -> (found: Option<CountryCode>)
        ensures
            found == country_named(name@),
    {
        let name: String = name.to_owned();
        if same_text(&name, "ALL") {
            Some(CountryCode::ALL)
        } else if same_text(&name, "AR") {
            Some(CountryCode::AR)
        } else if same_text(&name, "AU") {
            Some(CountryCode::AU)
        } else if same_text(&name, "AT") {
            Some(CountryCode::AT)
        } else if same_text(&name, "BE") {
            Some(CountryCode::BE)
        } else if same_text(&name, "BR") {
            Some(CountryCode::BR)
        } else if same_text(&name, "CA") {
            Some(CountryCode::CA)
        } else if same_text(&name, "CL") {
            Some(CountryCode::CL)
        } else if same_text(&name, "DK") {
            Some(CountryCode::DK)
        } else if same_text(&name, "FI") {
            Some(CountryCode::FI)
        } else if same_text(&name, "FR") {
            Some(CountryCode::FR)
        } else if same_text(&name, "DE") {
            Some(CountryCode::DE)
        } else if same_text(&name, "HK") {
            Some(CountryCode::HK)
        } else if same_text(&name, "IN") {
            Some(CountryCode::IN)
        } else if same_text(&name, "ID") {
            Some(CountryCode::ID)
        } else if same_text(&name, "IT") {
            Some(CountryCode::IT)
        } else if same_text(&name, "JP") {
            Some(CountryCode::JP)
        } else if same_text(&name, "KR") {
            Some(CountryCode::KR)
        } else if same_text(&name, "MY") {
            Some(CountryCode::MY)
        } else if same_text(&name, "MX") {
            Some(CountryCode::MX)
        } else if same_text(&name, "NL") {
            Some(CountryCode::NL)
        } else if same_text(&name, "NZ") {
            Some(CountryCode::NZ)
        } else if same_text(&name, "NO") {
            Some(CountryCode::NO)
        } else if same_text(&name, "CN") {
            Some(CountryCode::CN)
        } else if same_text(&name, "PL") {
            Some(CountryCode::PL)
        } else if same_text(&name, "PT") {
            Some(CountryCode::PT)
        } else if same_text(&name, "PH") {
            Some(CountryCode::PH)
        } else if same_text(&name, "RU") {
            Some(CountryCode::RU)
        } else if same_text(&name, "SA") {
            Some(CountryCode::SA)
        } else if same_text(&name, "ZA") {
            Some(CountryCode::ZA)
        } else if same_text(&name, "ES") {
            Some(CountryCode::ES)
        } else if same_text(&name, "SE") {
            Some(CountryCode::SE)
        } else if same_text(&name, "CH") {
            Some(CountryCode::CH)
        } else if same_text(&name, "TW") {
            Some(CountryCode::TW)
        } else if same_text(&name, "TR") {
            Some(CountryCode::TR)
        } else if same_text(&name, "GB") {
            Some(CountryCode::GB)
        } else if same_text(&name, "US") {
            Some(CountryCode::US)
        } else {
            None
        }
    }

    /// Reads a country code, in any mix of upper and lower case.
    pub fn from_str(s: &str) -> (result: Result<CountryCode, String>)
        ensures
            reading(country_named(uppercase(s@)), "Unknown country code: "@, s@, result),
    {
        let name: String = s.to_uppercase();
        match CountryCode::named(name.as_str()) {
            Some(code) => Ok(code),
            None => {
                let mut message: String = "Unknown country code: ".to_owned();
                message.append(s);
                Err(message)
            },
        }
    }

    /// The code in lower case, as a request carries it.
    pub fn as_str(&self) -> (text: &'static str)
        ensures
            text@ == country_text(*self),
    {
        match self {
            CountryCode::ALL => "all",
            CountryCode::AR => "ar",
            CountryCode::AU => "au",
            CountryCode::AT => "at",
            CountryCode::BE => "be",
            CountryCode::BR => "br",
            CountryCode::CA => "ca",
            CountryCode::CL => "cl",
            CountryCode::DK => "dk",
            CountryCode::FI => "fi",
            CountryCode::FR => "fr",
            CountryCode::DE => "de",
            CountryCode::HK => "hk",
            CountryCode::IN => "in",
            CountryCode::ID => "id",
            CountryCode::IT => "it",
            CountryCode::JP => "jp",
            CountryCode::KR => "kr",
            CountryCode::MY => "my",
            CountryCode::MX => "mx",
            CountryCode::NL => "nl",
            CountryCode::NZ => "nz",
            CountryCode::NO => "no",
            CountryCode::CN => "cn",
            CountryCode::PL => "pl",
            CountryCode::PT => "pt",
            CountryCode::PH => "ph",
            CountryCode::RU => "ru",
            CountryCode::SA => "sa",
            CountryCode::ZA => "za",
            CountryCode::ES => "es",
            CountryCode::SE => "se",
            CountryCode::CH => "ch",
            CountryCode::TW => "tw",
            CountryCode::TR => "tr",
            CountryCode::GB => "gb",
            CountryCode::US => "us",
        }
    }
}

/// A language in which the search provider serves results.
#[allow(non_camel_case_types)]
#[derive(Debug, Clone, Copy, PartialEq, Eq, Structural)]
pub enum LanguageCode {
    AR,
    EU,
    BN,
    BG,
    CA,
    ZH_HANS,
    ZH_HANT,
    HR,
    CS,
    DA,
    NL,
    EN,
    EN_GB,
    ET,
    FI,
    FR,
    GL,
    DE,
    GU,
    HE,
    HI,
    HU,
    IS,
    IT,
    JA,
    KN,
    KO,
    LV,
    LT,
    MS,
    ML,
    MR,
    NB,
    PL,
    PT,
    PT_BR,
    PA,
    RO,
    RU,
    SR,
    SK,
    SL,
    ES,
    SV,
    TA,
    TE,
    TH,
    TR,
    UK,
    VI,
}

/// The language that goes by `name`, which is in lower case. A language with
/// a region goes by two names, one with a hyphen and one with an underscore.
pub open spec fn language_named(name: Seq<char>) -> Option<LanguageCode> {
    if name == "ar"@ {
        Some(LanguageCode::AR)
    } else if name == "eu"@ {
        Some(LanguageCode::EU)
    } else if name == "bn"@ {
        Some(LanguageCode::BN)
    } else if name == "bg"@ {
        Some(LanguageCode::BG)
    } else if name == "ca"@ {
        Some(LanguageCode::CA)
    } else if name == "zh-hans"@ {
        Some(LanguageCode::ZH_HANS)
    } else if name == "zh_hans"@ {
        Some(LanguageCode::ZH_HANS)
    } else if name == "zh-hant"@ {
        Some(LanguageCode::ZH_HANT)
    } else if name == "zh_hant"@ {
        Some(LanguageCode::ZH_HANT)
    } else if name == "hr"@ {
        Some(LanguageCode::HR)
    } else if name == "cs"@ {
        Some(LanguageCode::CS)
    } else if name == "da"@ {
        Some(LanguageCode::DA)
    } else if name == "nl"@ {
        Some(LanguageCode::NL)
    } else if name == "en"@ {
        Some(LanguageCode::EN)
    } else if name == "en-gb"@ {
        Some(LanguageCode::EN_GB)
    } else if name == "en_gb"@ {
        Some(LanguageCode::EN_GB)
    } else if name == "et"@ {
        Some(LanguageCode::ET)
    } else if name == "fi"@ {
        Some(LanguageCode::FI)
    } else if name == "fr"@ {
        Some(LanguageCode::FR)
    } else if name == "gl"@ {
        Some(LanguageCode::GL)
    } else if name == "de"@ {
        Some(LanguageCode::DE)
    } else if name == "gu"@ {
        Some(LanguageCode::GU)
    } else if name == "he"@ {
        Some(LanguageCode::HE)
    } else if name == "hi"@ {
        Some(LanguageCode::HI)
    } else if name == "hu"@ {
        Some(LanguageCode::HU)
    } else if name == "is"@ {
        Some(LanguageCode::IS)
    } else if name == "it"@ {
        Some(LanguageCode::IT)
    } else if name == "ja"@ {
        Some(LanguageCode::JA)
    } else if name == "kn"@ {
        Some(LanguageCode::KN)
    } else if name == "ko"@ {
        Some(LanguageCode::KO)
    } else if name == "lv"@ {
        Some(LanguageCode::LV)
    } else if name == "lt"@ {
        Some(LanguageCode::LT)
    } else if name == "ms"@ {
        Some(LanguageCode::MS)
    } else if name == "ml"@ {
        Some(LanguageCode::ML)
    } else if name == "mr"@ {
        Some(LanguageCode::MR)
    } else if name == "nb"@ {
        Some(LanguageCode::NB)
    } else if name == "pl"@ {
        Some(LanguageCode::PL)
    } else if name == "pt"@ {
        Some(LanguageCode::PT)
    } else if name == "pt-br"@ {
        Some(LanguageCode::PT_BR)
    } else if name == "pt_br"@ {
        Some(LanguageCode::PT_BR)
    } else if name == "pa"@ {
        Some(LanguageCode::PA)
    } else if name == "ro"@ {
        Some(LanguageCode::RO)
    } else if name == "ru"@ {
        Some(LanguageCode::RU)
    } else if name == "sr"@ {
        Some(LanguageCode::SR)
    } else if name == "sk"@ {
        Some(LanguageCode::SK)
    } else if name == "sl"@ {
        Some(LanguageCode::SL)
    } else if name == "es"@ {
        Some(LanguageCode::ES)
    } else if name == "sv"@ {
        Some(LanguageCode::SV)
    } else if name == "ta"@ {
        Some(LanguageCode::TA)
    } else if name == "te"@ {
        Some(LanguageCode::TE)
    } else if name == "th"@ {
        Some(LanguageCode::TH)
    } else if name == "tr"@ {
        Some(LanguageCode::TR)
    } else if name == "uk"@ {
        Some(LanguageCode::UK)
    } else if name == "vi"@ {
        Some(LanguageCode::VI)
    } else {
        None
    }
}

/// The language's code in lower case, with a hyphen before a region.
pub open spec fn language_text(code: LanguageCode) -> Seq<char> {
    match code {
        LanguageCode::AR => "ar"@,
        LanguageCode::EU => "eu"@,
        LanguageCode::BN => "bn"@,
        LanguageCode::BG => "bg"@,
        LanguageCode::CA => "ca"@,
        LanguageCode::ZH_HANS => "zh-hans"@,
        LanguageCode::ZH_HANT => "zh-hant"@,
        LanguageCode::HR => "hr"@,
        LanguageCode::CS => "cs"@,
        LanguageCode::DA => "da"@,
        LanguageCode::NL => "nl"@,
        LanguageCode::EN => "en"@,
        LanguageCode::EN_GB => "en-gb"@,
        LanguageCode::ET => "et"@,
        LanguageCode::FI => "fi"@,
        LanguageCode::FR => "fr"@,
        LanguageCode::GL => "gl"@,
        LanguageCode::DE => "de"@,
        LanguageCode::GU => "gu"@,
        LanguageCode::HE => "he"@,
        LanguageCode::HI => "hi"@,
        LanguageCode::HU => "hu"@,
        LanguageCode::IS => "is"@,
        LanguageCode::IT => "it"@,
        LanguageCode::JA => "ja"@,
        LanguageCode::KN => "kn"@,
        LanguageCode::KO => "ko"@,
        LanguageCode::LV => "lv"@,
        LanguageCode::LT => "lt"@,
        LanguageCode::MS => "ms"@,
        LanguageCode::ML => "ml"@,
        LanguageCode::MR => "mr"@,
        LanguageCode::NB => "nb"@,
        LanguageCode::PL => "pl"@,
        LanguageCode::PT => "pt"@,
        LanguageCode::PT_BR => "pt-br"@,
        LanguageCode::PA => "pa"@,
        LanguageCode::RO => "ro"@,
        LanguageCode::RU => "ru"@,
        LanguageCode::SR => "sr"@,
        LanguageCode::SK => "sk"@,
        LanguageCode::SL => "sl"@,
        LanguageCode::ES => "es"@,
        LanguageCode::SV => "sv"@,
        LanguageCode::TA => "ta"@,
        LanguageCode::TE => "te"@,
        LanguageCode::TH => "th"@,
        LanguageCode::TR => "tr"@,
        LanguageCode::UK => "uk"@,
        LanguageCode::VI => "vi"@,
    }
}

impl Default for LanguageCode {
    /// English.
    fn default() -> (code: LanguageCode)
        ensures
            code == LanguageCode::EN,
    {
        LanguageCode::EN
    }
}

impl LanguageCode {
    /// The language that goes by `name`, which is in lower case.
    pub fn named(name: &str) -> (found: Option<LanguageCode>)
        ensures
            found == language_named(name@),
    {
        let name: String = name.to_owned();
        if same_text(&name, "ar") {
            Some(LanguageCode::AR)
        } else if same_text(&name, "eu") {
            Some(LanguageCode::EU)
        } else if same_text(&name, "bn") {
            Some(LanguageCode::BN)
        } else if same_text(&name, "bg") {
            Some(LanguageCode::BG)
        } else if same_text(&name, "ca") {
            Some(LanguageCode::CA)
        } else if same_text(&name, "zh-hans") {
            Some(LanguageCode::ZH_HANS)
        } else if same_text(&name, "zh_hans") {
            Some(LanguageCode::ZH_HANS)
        } else if same_text(&name, "zh-hant") {
            Some(LanguageCode::ZH_HANT)
        } else if same_text(&name, "zh_hant") {
            Some(LanguageCode::ZH_HANT)
        } else if same_text(&name, "hr") {
            Some(LanguageCode::HR)
        } else if same_text(&name, "cs") {
            Some(LanguageCode::CS)
        } else if same_text(&name, "da") {
            Some(LanguageCode::DA)
        } else if same_text(&name, "nl") {
            Some(LanguageCode::NL)
        } else if same_text(&name, "en") {
            Some(LanguageCode::EN)
        } else if same_text(&name, "en-gb") {
            Some(LanguageCode::EN_GB)
        } else if same_text(&name, "en_gb") {
            Some(LanguageCode::EN_GB)
        } else if same_text(&name, "et") {
            Some(LanguageCode::ET)
        } else if same_text(&name, "fi") {
            Some(LanguageCode::FI)
        } else if same_text(&name, "fr") {
            Some(LanguageCode::FR)
        } else if same_text(&name, "gl") {
            Some(LanguageCode::GL)
        } else if same_text(&name, "de") {
            Some(LanguageCode::DE)
        } else if same_text(&name, "gu") {
            Some(LanguageCode::GU)
        } else if same_text(&name, "he") {
            Some(LanguageCode::HE)
        } else if same_text(&name, "hi") {
            Some(LanguageCode::HI)
        } else if same_text(&name, "hu") {
            Some(LanguageCode::HU)
        } else if same_text(&name, "is") {
            Some(LanguageCode::IS)
        } else if same_text(&name, "it") {
            Some(LanguageCode::IT)
        } else if same_text(&name, "ja") {
            Some(LanguageCode::JA)
        } else if same_text(&name, "kn") {
            Some(LanguageCode::KN)
        } else if same_text(&name, "ko") {
            Some(LanguageCode::KO)
        } else if same_text(&name, "lv") {
            Some(LanguageCode::LV)
        } else if same_text(&name, "lt") {
            Some(LanguageCode::LT)
        } else if same_text(&name, "ms") {
            Some(LanguageCode::MS)
        } else if same_text(&name, "ml") {
            Some(LanguageCode::ML)
        } else if same_text(&name, "mr") {
            Some(LanguageCode::MR)
        } else if same_text(&name, "nb") {
            Some(LanguageCode::NB)
        } else if same_text(&name, "pl") {
            Some(LanguageCode::PL)
        } else if same_text(&name, "pt") {
            Some(LanguageCode::PT)
        } else if same_text(&name, "pt-br") {
            Some(LanguageCode::PT_BR)
        } else if same_text(&name, "pt_br") {
            Some(LanguageCode::PT_BR)
        } else if same_text(&name, "pa") {
            Some(LanguageCode::PA)
        } else if same_text(&name, "ro") {
            Some(LanguageCode::RO)
        } else if same_text(&name, "ru") {
            Some(LanguageCode::RU)
        } else if same_text(&name, "sr") {
            Some(LanguageCode::SR)
        } else if same_text(&name, "sk") {
            Some(LanguageCode::SK)
        } else if same_text(&name, "sl") {
            Some(LanguageCode::SL)
        } else if same_text(&name, "es") {
            Some(LanguageCode::ES)
        } else if same_text(&name, "sv") {
            Some(LanguageCode::SV)
        } else if same_text(&name, "ta") {
            Some(LanguageCode::TA)
        } else if same_text(&name, "te") {
            Some(LanguageCode::TE)
        } else if same_text(&name, "th") {
            Some(LanguageCode::TH)
        } else if same_text(&name, "tr") {
            Some(LanguageCode::TR)
        } else if same_text(&name, "uk") {
            Some(LanguageCode::UK)
        } else if same_text(&name, "vi") {
            Some(LanguageCode::VI)
        } else {
            None
        }
    }

    /// Reads a language code, in any mix of upper and lower case.
    pub fn from_str(s: &str) -> (result: Result<LanguageCode, String>)
        ensures
            reading(language_named(lowercase(s@)), "Unknown language code: "@, s@, result),
    {
        let name: String = s.to_lowercase();
        match LanguageCode::named(name.as_str()) {
            Some(code) => Ok(code),
            None => {
                let mut message: String = "Unknown language code: ".to_owned();
                message.append(s);
                Err(message)
            },
        }
    }

    /// The code in lower case, as a request carries it.
    pub fn as_str(&self) -> (text: &'static str)
        ensures
            text@ == language_text(*self),
    {
        match self {
            LanguageCode::AR => "ar",
            LanguageCode::EU => "eu",
            LanguageCode::BN => "bn",
            LanguageCode::BG => "bg",
            LanguageCode::CA => "ca",
            LanguageCode::ZH_HANS => "zh-hans",
            LanguageCode::ZH_HANT => "zh-hant",
            LanguageCode::HR => "hr",
            LanguageCode::CS => "cs",
            LanguageCode::DA => "da",
            LanguageCode::NL => "nl",
            LanguageCode::EN => "en",
            LanguageCode::EN_GB => "en-gb",
            LanguageCode::ET => "et",
            LanguageCode::FI => "fi",
            LanguageCode::FR => "fr",
            LanguageCode::GL => "gl",
            LanguageCode::DE => "de",
            LanguageCode::GU => "gu",
            LanguageCode::HE => "he",
            LanguageCode::HI => "hi",
            LanguageCode::HU => "hu",
            LanguageCode::IS => "is",
            LanguageCode::IT => "it",
            LanguageCode::JA => "ja",
            LanguageCode::KN => "kn",
            LanguageCode::KO => "ko",
            LanguageCode::LV => "lv",
            LanguageCode::LT => "lt",
            LanguageCode::MS => "ms",
            LanguageCode::ML => "ml",
            LanguageCode::MR => "mr",
            LanguageCode::NB => "nb",
            LanguageCode::PL => "pl",
            LanguageCode::PT => "pt",
            LanguageCode::PT_BR => "pt-br",
            LanguageCode::PA => "pa",
            LanguageCode::RO => "ro",
            LanguageCode::RU => "ru",
            LanguageCode::SR => "sr",
            LanguageCode::SK => "sk",
            LanguageCode::SL => "sl",
            LanguageCode::ES => "es",
            LanguageCode::SV => "sv",
            LanguageCode::TA => "ta",
            LanguageCode::TE => "te",
            LanguageCode::TH => "th",
            LanguageCode::TR => "tr",
            LanguageCode::UK => "uk",
            LanguageCode::VI => "vi",
        }
    }
}

} // verus!
