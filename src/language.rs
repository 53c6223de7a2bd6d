//! Language names and their two-letter codes.

use vstd::prelude::*;
use crate::text::{chars_of, same_chars};

verus! {

/// How many languages the table holds.
pub const LANGUAGE_COUNT: usize = 183;

/// Entry `i` of the language table: a lower-case language name and its
/// two-letter code.
pub open spec fn language_entry(i: usize) -> (Seq<char>, Seq<char>) {
    match i {
        0 => ("afar"@, "AA"@),
        1 => ("abkhaz"@, "AB"@),
        2 => ("avestan"@, "AE"@),
        3 => ("afrikaans"@, "AF"@),
        4 => ("akan"@, "AK"@),
        5 => ("amharic"@, "AM"@),
        6 => ("aragonese"@, "AN"@),
        7 => ("arabic"@, "AR"@),
        8 => ("assamese"@, "AS"@),
        9 => ("avaric"@, "AV"@),
        10 => ("aymara"@, "AY"@),
        11 => ("azerbaijani"@, "AZ"@),
        12 => ("bashkir"@, "BA"@),
        13 => ("belarusian"@, "BE"@),
        14 => ("bulgarian"@, "BG"@),
        15 => ("bislama"@, "BI"@),
        16 => ("bambara"@, "BM"@),
        17 => ("bengali"@, "BN"@),
        18 => ("tibetan"@, "BO"@),
        19 => ("breton"@, "BR"@),
        20 => ("bosnian"@, "BS"@),
        21 => ("catalan"@, "CA"@),
        22 => ("chechen"@, "CE"@),
        23 => ("chamorro"@, "CH"@),
        24 => ("corsican"@, "CO"@),
        25 => ("cree"@, "CR"@),
        26 => ("czech"@, "CS"@),
        27 => ("old church slavonic"@, "CU"@),
        28 => ("chuvash"@, "CV"@),
        29 => ("welsh"@, "CY"@),
        30 => ("danish"@, "DA"@),
        31 => ("german"@, "DE"@),
        32 => ("divehi"@, "DV"@),
        33 => ("dzongkha"@, "DZ"@),
        34 => ("ewe"@, "EE"@),
        35 => ("greek"@, "EL"@),
        36 => ("english"@, "EN"@),
        37 => ("esperanto"@, "EO"@),
        38 => ("spanish"@, "ES"@),
        39 => ("estonian"@, "ET"@),
        40 => ("basque"@, "EU"@),
        41 => ("persian"@, "FA"@),
        42 => ("fula"@, "FF"@),
        43 => ("finnish"@, "FI"@),
        44 => ("fijian"@, "FJ"@),
        45 => ("faroese"@, "FO"@),
        46 => ("french"@, "FR"@),
        47 => ("western frisian"@, "FY"@),
        48 => ("irish"@, "GA"@),
        49 => ("scottish gaelic"@, "GD"@),
        50 => ("galician"@, "GL"@),
        51 => ("guaraní"@, "GN"@),
        52 => ("gujarati"@, "GU"@),
        53 => ("manx"@, "GV"@),
        54 => ("hausa"@, "HA"@),
        55 => ("hebrew"@, "HE"@),
        56 => ("hindi"@, "HI"@),
        57 => ("hiri motu"@, "HO"@),
        58 => ("croatian"@, "HR"@),
        59 => ("haitian"@, "HT"@),
        60 => ("hungarian"@, "HU"@),
        61 => ("armenian"@, "HY"@),
        62 => ("herero"@, "HZ"@),
        63 => ("interlingua"@, "IA"@),
        64 => ("indonesian"@, "ID"@),
        65 => ("interlingue"@, "IE"@),
        66 => ("igbo"@, "IG"@),
        67 => ("nuosu"@, "II"@),
        68 => ("inupiaq"@, "IK"@),
        69 => ("ido"@, "IO"@),
        70 => ("icelandic"@, "IS"@),
        71 => ("italian"@, "IT"@),
        72 => ("inuktitut"@, "IU"@),
        73 => ("japanese"@, "JA"@),
        74 => ("javanese"@, "JV"@),
        75 => ("georgian"@, "KA"@),
        76 => ("kongo"@, "KG"@),
        77 => ("kikuyu"@, "KI"@),
        78 => ("kwanyama"@, "KJ"@),
        79 => ("kazakh"@, "KK"@),
        80 => ("kalaallisut"@, "KL"@),
        81 => ("khmer"@, "KM"@),
        82 => ("kannada"@, "KN"@),
        83 => ("korean"@, "KO"@),
        84 => ("kanuri"@, "KR"@),
        85 => ("kashmiri"@, "KS"@),
        86 => ("kurdish"@, "KU"@),
        87 => ("komi"@, "KV"@),
        88 => ("cornish"@, "KW"@),
        89 => ("kyrgyz"@, "KY"@),
        90 => ("latin"@, "LA"@),
        91 => ("luxembourgish"@, "LB"@),
        92 => ("ganda"@, "LG"@),
        93 => ("limburgish"@, "LI"@),
        94 => ("lingala"@, "LN"@),
        95 => ("lao"@, "LO"@),
        96 => ("lithuanian"@, "LT"@),
        97 => ("luba-katanga"@, "LU"@),
        98 => ("latvian"@, "LV"@),
        99 => ("malagasy"@, "MG"@),
        100 => ("marshallese"@, "MH"@),
        101 => ("māori"@, "MI"@),
        102 => ("macedonian"@, "MK"@),
        103 => ("malayalam"@, "ML"@),
        104 => ("mongolian"@, "MN"@),
        105 => ("marathi"@, "MR"@),
        106 => ("malay"@, "MS"@),
        107 => ("maltese"@, "MT"@),
        108 => ("burmese"@, "MY"@),
        109 => ("nauru"@, "NA"@),
        110 => ("norwegian bokmål"@, "NB"@),
        111 => ("northern ndebele"@, "ND"@),
        112 => ("nepali"@, "NE"@),
        113 => ("ndonga"@, "NG"@),
        114 => ("dutch"@, "NL"@),
        115 => ("norwegian nynorsk"@, "NN"@),
        116 => ("norwegian"@, "NO"@),
        117 => ("southern ndebele"@, "NR"@),
        118 => ("navajo"@, "NV"@),
        119 => ("chichewa"@, "NY"@),
        120 => ("occitan"@, "OC"@),
        121 => ("ojibwe"@, "OJ"@),
        122 => ("oromo"@, "OM"@),
        123 => ("oriya"@, "OR"@),
        124 => ("ossetian"@, "OS"@),
        125 => ("panjabi"@, "PA"@),
        126 => ("pāli"@, "PI"@),
        127 => ("polish"@, "PL"@),
        128 => ("pashto"@, "PS"@),
        129 => ("portuguese"@, "PT"@),
        130 => ("quechua"@, "QU"@),
        131 => ("romansh"@, "RM"@),
        132 => ("kirundi"@, "RN"@),
        133 => ("romanian"@, "RO"@),
        134 => ("russian"@, "RU"@),
        135 => ("kinyarwanda"@, "RW"@),
        136 => ("sanskrit"@, "SA"@),
        137 => ("sardinian"@, "SC"@),
        138 => ("sindhi"@, "SD"@),
        139 => ("northern sami"@, "SE"@),
        140 => ("sango"@, "SG"@),
        141 => ("sinhala"@, "SI"@),
        142 => ("slovak"@, "SK"@),
        143 => ("slovenian"@, "SL"@),
        144 => ("samoan"@, "SM"@),
        145 => ("shona"@, "SN"@),
        146 => ("somali"@, "SO"@),
        147 => ("albanian"@, "SQ"@),
        148 => ("serbian"@, "SR"@),
        149 => ("swati"@, "SS"@),
        150 => ("southern sotho"@, "ST"@),
        151 => ("sundanese"@, "SU"@),
        152 => ("swedish"@, "SV"@),
        153 => ("swahili"@, "SW"@),
        154 => ("tamil"@, "TA"@),
        155 => ("telugu"@, "TE"@),
        156 => ("tajik"@, "TG"@),
        157 => ("thai"@, "TH"@),
        158 => ("tigrinya"@, "TI"@),
        159 => ("turkmen"@, "TK"@),
        160 => ("tagalog"@, "TL"@),
        161 => ("tswana"@, "TN"@),
        162 => ("tonga"@, "TO"@),
        163 => ("turkish"@, "TR"@),
        164 => ("tsonga"@, "TS"@),
        165 => ("tatar"@, "TT"@),
        166 => ("twi"@, "TW"@),
        167 => ("tahitian"@, "TY"@),
        168 => ("uyghur"@, "UG"@),
        169 => ("ukrainian"@, "UK"@),
        170 => ("urdu"@, "UR"@),
        171 => ("uzbek"@, "UZ"@),
        172 => ("venda"@, "VE"@),
        173 => ("vietnamese"@, "VI"@),
        174 => ("volapük"@, "VO"@),
        175 => ("walloon"@, "WA"@),
        176 => ("wolof"@, "WO"@),
        177 => ("xhosa"@, "XH"@),
        178 => ("yiddish"@, "YI"@),
        179 => ("yoruba"@, "YO"@),
        180 => ("zhuang"@, "ZA"@),
        181 => ("chinese"@, "ZH"@),
        182 => ("zulu"@, "ZU"@),
        _ => (Seq::empty(), Seq::empty()),
    }
}

/// The code of the first entry, at index `i` or later, whose name is `name`;
/// empty where none is.
pub open spec fn code_from(name: Seq<char>, i: int) -> Seq<char>
    decreases LANGUAGE_COUNT - i,
{
    if i < 0 || i >= LANGUAGE_COUNT {
        Seq::empty()
    } else if language_entry(i as usize).0 == name {
        language_entry(i as usize).1
    } else {
        code_from(name, i + 1)
    }
}

/// The two-letter code of a lower-case language name; empty if the name is unknown.
pub open spec fn language_code_of(name: Seq<char>) -> Seq<char> {
    code_from(name, 0)
}

fn entry_at(i: usize) -> (r: (&'static str, &'static str))
    requires
        i < LANGUAGE_COUNT,
    ensures
        (r.0@, r.1@) == language_entry(i),
{
    match i {
        0 => ("afar", "AA"),
        1 => ("abkhaz", "AB"),
        2 => ("avestan", "AE"),
        3 => ("afrikaans", "AF"),
        4 => ("akan", "AK"),
        5 => ("amharic", "AM"),
        6 => ("aragonese", "AN"),
        7 => ("arabic", "AR"),
        8 => ("assamese", "AS"),
        9 => ("avaric", "AV"),
        10 => ("aymara", "AY"),
        11 => ("azerbaijani", "AZ"),
        12 => ("bashkir", "BA"),
        13 => ("belarusian", "BE"),
        14 => ("bulgarian", "BG"),
        15 => ("bislama", "BI"),
        16 => ("bambara", "BM"),
        17 => ("bengali", "BN"),
        18 => ("tibetan", "BO"),
        19 => ("breton", "BR"),
        20 => ("bosnian", "BS"),
        21 => ("catalan", "CA"),
        22 => ("chechen", "CE"),
        23 => ("chamorro", "CH"),
        24 => ("corsican", "CO"),
        25 => ("cree", "CR"),
        26 => ("czech", "CS"),
        27 => ("old church slavonic", "CU"),
        28 => ("chuvash", "CV"),
        29 => ("welsh", "CY"),
        30 => ("danish", "DA"),
        31 => ("german", "DE"),
        32 => ("divehi", "DV"),
        33 => ("dzongkha", "DZ"),
        34 => ("ewe", "EE"),
        35 => ("greek", "EL"),
        36 => ("english", "EN"),
        37 => ("esperanto", "EO"),
        38 => ("spanish", "ES"),
        39 => ("estonian", "ET"),
        40 => ("basque", "EU"),
        41 => ("persian", "FA"),
        42 => ("fula", "FF"),
        43 => ("finnish", "FI"),
        44 => ("fijian", "FJ"),
        45 => ("faroese", "FO"),
        46 => ("french", "FR"),
        47 => ("western frisian", "FY"),
        48 => ("irish", "GA"),
        49 => ("scottish gaelic", "GD"),
        50 => ("galician", "GL"),
        51 => ("guaraní", "GN"),
        52 => ("gujarati", "GU"),
        53 => ("manx", "GV"),
        54 => ("hausa", "HA"),
        55 => ("hebrew", "HE"),
        56 => ("hindi", "HI"),
        57 => ("hiri motu", "HO"),
        58 => ("croatian", "HR"),
        59 => ("haitian", "HT"),
        60 => ("hungarian", "HU"),
        61 => ("armenian", "HY"),
        62 => ("herero", "HZ"),
        63 => ("interlingua", "IA"),
        64 => ("indonesian", "ID"),
        65 => ("interlingue", "IE"),
        66 => ("igbo", "IG"),
        67 => ("nuosu", "II"),
        68 => ("inupiaq", "IK"),
        69 => ("ido", "IO"),
        70 => ("icelandic", "IS"),
        71 => ("italian", "IT"),
        72 => ("inuktitut", "IU"),
        73 => ("japanese", "JA"),
        74 => ("javanese", "JV"),
        75 => ("georgian", "KA"),
        76 => ("kongo", "KG"),
        77 => ("kikuyu", "KI"),
        78 => ("kwanyama", "KJ"),
        79 => ("kazakh", "KK"),
        80 => ("kalaallisut", "KL"),
        81 => ("khmer", "KM"),
        82 => ("kannada", "KN"),
        83 => ("korean", "KO"),
        84 => ("kanuri", "KR"),
        85 => ("kashmiri", "KS"),
        86 => ("kurdish", "KU"),
        87 => ("komi", "KV"),
        88 => ("cornish", "KW"),
        89 => ("kyrgyz", "KY"),
        90 => ("latin", "LA"),
        91 => ("luxembourgish", "LB"),
        92 => ("ganda", "LG"),
        93 => ("limburgish", "LI"),
        94 => ("lingala", "LN"),
        95 => ("lao", "LO"),
        96 => ("lithuanian", "LT"),
        97 => ("luba-katanga", "LU"),
        98 => ("latvian", "LV"),
        99 => ("malagasy", "MG"),
        100 => ("marshallese", "MH"),
        101 => ("māori", "MI"),
        102 => ("macedonian", "MK"),
        103 => ("malayalam", "ML"),
        104 => ("mongolian", "MN"),
        105 => ("marathi", "MR"),
        106 => ("malay", "MS"),
        107 => ("maltese", "MT"),
        108 => ("burmese", "MY"),
        109 => ("nauru", "NA"),
        110 => ("norwegian bokmål", "NB"),
        111 => ("northern ndebele", "ND"),
        112 => ("nepali", "NE"),
        113 => ("ndonga", "NG"),
        114 => ("dutch", "NL"),
        115 => ("norwegian nynorsk", "NN"),
        116 => ("norwegian", "NO"),
        117 => ("southern ndebele", "NR"),
        118 => ("navajo", "NV"),
        119 => ("chichewa", "NY"),
        120 => ("occitan", "OC"),
        121 => ("ojibwe", "OJ"),
        122 => ("oromo", "OM"),
        123 => ("oriya", "OR"),
        124 => ("ossetian", "OS"),
        125 => ("panjabi", "PA"),
        126 => ("pāli", "PI"),
        127 => ("polish", "PL"),
        128 => ("pashto", "PS"),
        129 => ("portuguese", "PT"),
        130 => ("quechua", "QU"),
        131 => ("romansh", "RM"),
        132 => ("kirundi", "RN"),
        133 => ("romanian", "RO"),
        134 => ("russian", "RU"),
        135 => ("kinyarwanda", "RW"),
        136 => ("sanskrit", "SA"),
        137 => ("sardinian", "SC"),
        138 => ("sindhi", "SD"),
        139 => ("northern sami", "SE"),
        140 => ("sango", "SG"),
        141 => ("sinhala", "SI"),
        142 => ("slovak", "SK"),
        143 => ("slovenian", "SL"),
        144 => ("samoan", "SM"),
        145 => ("shona", "SN"),
        146 => ("somali", "SO"),
        147 => ("albanian", "SQ"),
        148 => ("serbian", "SR"),
        149 => ("swati", "SS"),
        150 => ("southern sotho", "ST"),
        151 => ("sundanese", "SU"),
        152 => ("swedish", "SV"),
        153 => ("swahili", "SW"),
        154 => ("tamil", "TA"),
        155 => ("telugu", "TE"),
        156 => ("tajik", "TG"),
        157 => ("thai", "TH"),
        158 => ("tigrinya", "TI"),
        159 => ("turkmen", "TK"),
        160 => ("tagalog", "TL"),
        161 => ("tswana", "TN"),
        162 => ("tonga", "TO"),
        163 => ("turkish", "TR"),
        164 => ("tsonga", "TS"),
        165 => ("tatar", "TT"),
        166 => ("twi", "TW"),
        167 => ("tahitian", "TY"),
        168 => ("uyghur", "UG"),
        169 => ("ukrainian", "UK"),
        170 => ("urdu", "UR"),
        171 => ("uzbek", "UZ"),
        172 => ("venda", "VE"),
        173 => ("vietnamese", "VI"),
        174 => ("volapük", "VO"),
        175 => ("walloon", "WA"),
        176 => ("wolof", "WO"),
        177 => ("xhosa", "XH"),
        178 => ("yiddish", "YI"),
        179 => ("yoruba", "YO"),
        180 => ("zhuang", "ZA"),
        181 => ("chinese", "ZH"),
        182 => ("zulu", "ZU"),
        _ => ("", ""),
    }
}

/// Looks up the two-letter code of a lower-case language name; the empty
/// string if the name is not in the table.
pub fn get_language_code(language: &str) -> (r: &'static str)
    ensures
        r@ == language_code_of(language@),
{
    let name = chars_of(language);
    let mut i: usize = 0;
    while i < LANGUAGE_COUNT
        invariant
            name@ == language@,
            code_from(language@, 0) == code_from(language@, i as int),
        decreases LANGUAGE_COUNT - i,
    {
        let (entry_name, entry_code) = entry_at(i);
        let entry_chars = chars_of(entry_name);
        if same_chars(&entry_chars, &name) {
            return entry_code;
        }
        i = i + 1;
    }
    proof {
        reveal_strlit("");
    }
    ""
}

} // verus!
