//! The script classifier: a fixed table mapping each known font-variant
//! name to its canonical script identifier, the flattened list of all known
//! variants, and the derived queries over variant lists.

use vstd::prelude::*;
use vstd::string::StringExecFns;
use crate::sortutil::SortKey;
use crate::sortutil::dedup_strings;
use crate::sortutil::sort_by_key;
use crate::sortutil::spec_dedup;
use crate::sortutil::spec_sort;
use crate::strutil::str_eq;
use crate::strutil::views_of;

verus! {

/// The view of an optional owned string.
pub open spec fn opt_str_view(r: Option<String>) -> Option<Seq<char>> {
    match r {
        Option::Some(s) => Option::Some(s@),
        Option::None => Option::None,
    }
}

pub open spec fn script_chunk1(s: Seq<char>) -> Option<Seq<char>> {
    if s == "Sans"@ || s == "Serif"@ || s == "Sans Mono"@ {
        Option::Some(""@)
    } else if s == "Sans Adlam"@ || s == "Sans Adlam Unjoined"@ {
        Option::Some("Adlam"@)
    } else if s == "Serif Ahom"@ {
        Option::Some("Ahom"@)
    } else if s == "Sans AnatoHiero"@ {
        Option::Some("Anatolian Hieroglyphs"@)
    } else if s == "Sans Arabic"@ || s == "Kufi Arabic"@ || s == "Naskh Arabic"@ || s == "Nastaliq Urdu"@ {
        Option::Some("Arabic"@)
    } else if s == "Sans Armenian"@ || s == "Serif Armenian"@ {
        Option::Some("Armenian"@)
    } else if s == "Sans Avestan"@ {
        Option::Some("Avestan"@)
    } else if s == "Sans Balinese"@ || s == "Serif Balinese"@ {
        Option::Some("Balinese"@)
    } else if s == "Sans Bamum"@ {
        Option::Some("Bamum"@)
    } else if s == "Sans Bassa Vah"@ {
        Option::Some("Bassa Vah"@)
    } else if s == "Sans Batak"@ {
        Option::Some("Batak"@)
    } else if s == "Sans Bengali"@ || s == "Serif Bengali"@ {
        Option::Some("Bengali"@)
    } else if s == "Sans Bhaiksuki"@ {
        Option::Some("Bhaiksuki"@)
    } else if s == "Sans Brahmi"@ {
        Option::Some("Brahmi"@)
    } else if s == "Sans Buginese"@ {
        Option::Some("Buginese"@)
    } else if s == "Sans Buhid"@ {
        Option::Some("Buhid"@)
    } else if s == "Sans Canadian Aboriginal"@ {
        Option::Some("Canadian Aboriginal"@)
    } else if s == "Sans Carian"@ {
        Option::Some("Carian"@)
    } else if s == "Sans Caucasian Albanian"@ {
        Option::Some("Caucasian Albanian"@)
    } else {
        Option::None
    }
}

pub open spec fn script_chunk2(s: Seq<char>) -> Option<Seq<char>> {
    if s == "Sans Chakma"@ {
        Option::Some("Chakma"@)
    } else if s == "Sans Cham"@ {
        Option::Some("Cham"@)
    } else if s == "Sans Cherokee"@ {
        Option::Some("Cherokee"@)
    } else if s == "Sans Chorasmian"@ {
        Option::Some("Chorasmian"@)
    } else if s == "Sans CJK HK"@ || s == "Sans CJK JP"@ || s == "Sans CJK KR"@ || s == "Sans CJK SC"@ || s == "Sans CJK TC"@ {
        Option::Some("CJK"@)
    } else if s == "Sans Coptic"@ {
        Option::Some("Coptic"@)
    } else if s == "Sans Cuneiform"@ {
        Option::Some("Cuneiform"@)
    } else if s == "Sans Cypriot"@ {
        Option::Some("Cypriot"@)
    } else if s == "Sans Cypro Minoan"@ {
        Option::Some("Cypro Minoan"@)
    } else if s == "Sans Deseret"@ {
        Option::Some("Deseret"@)
    } else if s == "Sans Devanagari"@ || s == "Serif Devanagari"@ {
        Option::Some("Devanagari"@)
    } else if s == "Serif Dives Akuru"@ {
        Option::Some("Dives Akuru"@)
    } else if s == "Serif Dogra"@ {
        Option::Some("Dogra"@)
    } else if s == "Sans Duployan"@ {
        Option::Some("Duployan"@)
    } else if s == "Sans EgyptHiero"@ {
        Option::Some("Egyptian Hieroglyphs"@)
    } else if s == "Sans Elbasan"@ {
        Option::Some("Elbasan"@)
    } else if s == "Sans Elymaic"@ {
        Option::Some("Elymaic"@)
    } else if s == "Color Emoji"@ {
        Option::Some("Emoji"@)
    } else if s == "Sans Ethiopic"@ || s == "Serif Ethiopic"@ {
        Option::Some("Ethiopic"@)
    } else {
        Option::None
    }
}

pub open spec fn script_chunk3(s: Seq<char>) -> Option<Seq<char>> {
    if s == "Sans Georgian"@ || s == "Serif Georgian"@ {
        Option::Some("Georgian"@)
    } else if s == "Sans Glagolitic"@ {
        Option::Some("Glagolitic"@)
    } else if s == "Sans Gothic"@ {
        Option::Some("Gothic"@)
    } else if s == "Sans Grantha"@ || s == "Serif Grantha"@ {
        Option::Some("Grantha"@)
    } else if s == "Sans Gujarati"@ || s == "Serif Gujarati"@ {
        Option::Some("Gujarati"@)
    } else if s == "Sans Gunjala Gondi"@ {
        Option::Some("Gunjala Gondi"@)
    } else if s == "Sans Gurmukhi"@ || s == "Serif Gurmukhi"@ {
        Option::Some("Gurmukhi"@)
    } else if s == "Sans Hanifi Rohingya"@ {
        Option::Some("Hanifi Rohingya"@)
    } else if s == "Sans Hanunoo"@ {
        Option::Some("Hanunoo"@)
    } else if s == "Sans Hatran"@ {
        Option::Some("Hatran"@)
    } else if s == "Sans Hebrew"@ || s == "Serif Hebrew"@ || s == "Rashi Hebrew"@ {
        Option::Some("Hebrew"@)
    } else if s == "Sans ImpAramaic"@ {
        Option::Some("Imperial Aramaic"@)
    } else if s == "Sans Indic Siyaq Numbers"@ {
        Option::Some("Indic Siyaq Numbers"@)
    } else if s == "Sans InsPahlavi"@ {
        Option::Some("Inscriptional Pahlavi"@)
    } else if s == "Sans Inscriptional Parthian"@ {
        Option::Some("Inscriptional Parthian"@)
    } else if s == "Sans Javanese"@ {
        Option::Some("Javanese"@)
    } else if s == "Sans Kaithi"@ {
        Option::Some("Kaithi"@)
    } else if s == "Sans Kannada"@ || s == "Serif Kannada"@ {
        Option::Some("Kannada"@)
    } else if s == "Sans Kawi"@ {
        Option::Some("Kawi"@)
    } else {
        Option::None
    }
}

pub open spec fn script_chunk4(s: Seq<char>) -> Option<Seq<char>> {
    if s == "Serif Khitan Small Script"@ || s == "Fangsong KSS Rotated"@ || s == "Fangsong KSS Vertical"@ {
        Option::Some("Khitan"@)
    } else if s == "Sans Kayah Li"@ {
        Option::Some("Kayah Li"@)
    } else if s == "Sans Kharoshthi"@ {
        Option::Some("Kharoshthi"@)
    } else if s == "Sans Khmer"@ || s == "Serif Khmer"@ {
        Option::Some("Khmer"@)
    } else if s == "Sans Khojki"@ || s == "Serif Khojki"@ {
        Option::Some("Khojki"@)
    } else if s == "Sans Khudawadi"@ {
        Option::Some("Khudawadi"@)
    } else if s == "Sans Lao"@ || s == "Sans Lao Looped"@ || s == "Serif Lao"@ {
        Option::Some("Lao"@)
    } else if s == "Sans Lepcha"@ {
        Option::Some("Lepcha"@)
    } else if s == "Sans Limbu"@ {
        Option::Some("Limbu"@)
    } else if s == "Sans Linear A"@ {
        Option::Some("Linear A"@)
    } else if s == "Sans Linear B"@ {
        Option::Some("Linear B"@)
    } else if s == "Sans Lisu"@ {
        Option::Some("Lisu"@)
    } else if s == "Sans Lycian"@ {
        Option::Some("Lycian"@)
    } else if s == "Sans Lydian"@ {
        Option::Some("Lydian"@)
    } else if s == "Sans Mahajani"@ {
        Option::Some("Mahajani"@)
    } else if s == "Sans Malayalam"@ || s == "Serif Malayalam"@ {
        Option::Some("Malayalam"@)
    } else if s == "Sans Mandaic"@ {
        Option::Some("Mandaic"@)
    } else if s == "Serif Makasar"@ {
        Option::Some("Makasar"@)
    } else if s == "Sans Manichaean"@ {
        Option::Some("Manichaean"@)
    } else {
        Option::None
    }
}

pub open spec fn script_chunk5(s: Seq<char>) -> Option<Seq<char>> {
    if s == "Sans Masaram Gondi"@ {
        Option::Some("Masaram Gondi"@)
    } else if s == "Sans Marchen"@ {
        Option::Some("Marchen"@)
    } else if s == "Sans Math"@ {
        Option::Some("Math"@)
    } else if s == "Sans Mayan Numerals"@ {
        Option::Some("Mayan Numerals"@)
    } else if s == "Sans Medefaidrin"@ {
        Option::Some("Medefaidrin"@)
    } else if s == "Sans Meetei Mayek"@ {
        Option::Some("Meetei Mayek"@)
    } else if s == "Sans Mende Kikakui"@ {
        Option::Some("Mende Kikakui"@)
    } else if s == "Sans Meroitic"@ {
        Option::Some("Meroitic"@)
    } else if s == "Sans Miao"@ {
        Option::Some("Miao"@)
    } else if s == "Sans Modi"@ {
        Option::Some("Modi"@)
    } else if s == "Sans Mongolian"@ {
        Option::Some("Mongolian"@)
    } else if s == "Sans Mro"@ {
        Option::Some("Mro"@)
    } else if s == "Sans Multani"@ {
        Option::Some("Multani"@)
    } else if s == "Music"@ {
        Option::Some("Music"@)
    } else if s == "Sans Myanmar"@ || s == "Serif Myanmar"@ {
        Option::Some("Myanmar"@)
    } else if s == "Sans Nabataean"@ {
        Option::Some("Nabataean"@)
    } else if s == "Sans Nag Mundari"@ {
        Option::Some("Nag Mundari"@)
    } else if s == "Sans Nandinagari"@ {
        Option::Some("Nandinagari"@)
    } else if s == "Sans New Tai Lue"@ {
        Option::Some("New Tai Lue"@)
    } else {
        Option::None
    }
}

pub open spec fn script_chunk6(s: Seq<char>) -> Option<Seq<char>> {
    if s == "Sans Newa"@ {
        Option::Some("Newa"@)
    } else if s == "Sans NKo"@ || s == "Sans NKo Unjoined"@ {
        Option::Some("NKo"@)
    } else if s == "Sans Nushu"@ || s == "Traditional Nushu"@ {
        Option::Some("Nushu"@)
    } else if s == "Serif NP Hmong"@ {
        Option::Some("Nyiakeng Puachue Hmong"@)
    } else if s == "Sans Ogham"@ {
        Option::Some("Ogham"@)
    } else if s == "Sans Ol Chiki"@ {
        Option::Some("Ol Chiki"@)
    } else if s == "Sans OldHung"@ {
        Option::Some("Old Hungarian"@)
    } else if s == "Sans Old Italic"@ {
        Option::Some("Old Italic"@)
    } else if s == "Sans OldNorArab"@ {
        Option::Some("Old North Arabian"@)
    } else if s == "Sans Old Permic"@ {
        Option::Some("Old Permic"@)
    } else if s == "Sans OldPersian"@ {
        Option::Some("Old Persian"@)
    } else if s == "Sans OldSogdian"@ {
        Option::Some("Old Sogdian"@)
    } else if s == "Sans OldSouArab"@ {
        Option::Some("Old South Arabian"@)
    } else if s == "Sans Old Turkic"@ {
        Option::Some("Old Turkic"@)
    } else if s == "Serif Old Uyghur"@ {
        Option::Some("Old Uyghur"@)
    } else if s == "Sans Oriya"@ || s == "Serif Oriya"@ {
        Option::Some("Oriya"@)
    } else if s == "Sans Osage"@ {
        Option::Some("Osage"@)
    } else if s == "Sans Osmanya"@ {
        Option::Some("Osmanya"@)
    } else if s == "Serif Ottoman Siyaq"@ {
        Option::Some("Ottoman Siyaq"@)
    } else {
        Option::None
    }
}

pub open spec fn script_chunk7(s: Seq<char>) -> Option<Seq<char>> {
    if s == "Sans Pahawh Hmong"@ {
        Option::Some("Pahawh Hmong"@)
    } else if s == "Sans Palmyrene"@ {
        Option::Some("Palmyrene"@)
    } else if s == "Sans PauCinHau"@ {
        Option::Some("Pau Cin Hau"@)
    } else if s == "Sans PhagsPa"@ {
        Option::Some("Phags-Pa"@)
    } else if s == "Sans Phoenician"@ {
        Option::Some("Phoenician"@)
    } else if s == "Sans PsaPahlavi"@ {
        Option::Some("Psalter Pahlavi"@)
    } else if s == "Sans Rejang"@ {
        Option::Some("Rejang"@)
    } else if s == "Sans Runic"@ {
        Option::Some("Runic"@)
    } else if s == "Sans Samaritan"@ {
        Option::Some("Samaritan"@)
    } else if s == "Sans Saurashtra"@ {
        Option::Some("Saurashtra"@)
    } else if s == "Sans Sharada"@ {
        Option::Some("Sharada"@)
    } else if s == "Sans Shavian"@ {
        Option::Some("Shavian"@)
    } else if s == "Sans Siddham"@ {
        Option::Some("Siddham"@)
    } else if s == "Sans SignWriting"@ {
        Option::Some("SignWriting"@)
    } else if s == "Sans Sinhala"@ || s == "Serif Sinhala"@ {
        Option::Some("Sinhala"@)
    } else if s == "Sans Sogdian"@ {
        Option::Some("Sogdian"@)
    } else if s == "Sans Sora Sompeng"@ {
        Option::Some("Sora Sompeng"@)
    } else if s == "Sans Soyombo"@ {
        Option::Some("Soyombo"@)
    } else if s == "Sans Sundanese"@ {
        Option::Some("Sundanese"@)
    } else {
        Option::None
    }
}

pub open spec fn script_chunk8(s: Seq<char>) -> Option<Seq<char>> {
    if s == "Sans Syloti Nagri"@ {
        Option::Some("Syloti Nagri"@)
    } else if s == "Sans Symbols"@ {
        Option::Some("Symbols"@)
    } else if s == "Sans Symbols 2"@ {
        Option::Some("Symbols 2"@)
    } else if s == "Sans Syriac"@ || s == "Sans Syriac Eastern"@ || s == "Sans Syriac Western"@ {
        Option::Some("Syriac"@)
    } else if s == "Sans Tamil"@ || s == "Serif Tamil"@ {
        Option::Some("Tamil"@)
    } else if s == "Sans Tamil Supplement"@ {
        Option::Some("Tamil Supplement"@)
    } else if s == "Sans Tagalog"@ {
        Option::Some("Tagalog"@)
    } else if s == "Sans Tagbanwa"@ {
        Option::Some("Tagbanwa"@)
    } else if s == "Sans Tai Le"@ {
        Option::Some("Tai Le"@)
    } else if s == "Sans Tai Tham"@ {
        Option::Some("Tai Tham"@)
    } else if s == "Sans Tai Viet"@ {
        Option::Some("Tai Viet"@)
    } else if s == "Sans Takri"@ {
        Option::Some("Takri"@)
    } else if s == "Sans Tangsa"@ {
        Option::Some("Tangsa"@)
    } else if s == "Serif Tangut"@ {
        Option::Some("Tangut"@)
    } else if s == "Sans Telugu"@ || s == "Serif Telugu"@ {
        Option::Some("Telugu"@)
    } else if s == "Sans Thaana"@ {
        Option::Some("Thaana"@)
    } else if s == "Sans Thai"@ || s == "Sans Thai Looped Regular"@ || s == "Serif Thai"@ {
        Option::Some("Thai"@)
    } else if s == "Serif Tibetan"@ {
        Option::Some("Tibetan"@)
    } else if s == "Sans Tifinagh"@ || s == "Sans Tifinagh APT"@ || s == "Sans Tifinagh Adrar"@ || s == "Sans Tifinagh Agraw Imazighen"@ || s == "Sans Tifinagh Ahaggar"@ || s == "Sans Tifinagh Air"@ || s == "Sans Tifinagh Azawagh"@ || s == "Sans Tifinagh Ghat"@ || s == "Sans Tifinagh Hawad"@ || s == "Sans Tifinagh Rhissa Ixa"@ || s == "Sans Tifinagh SIL"@ || s == "Sans Tifinagh Tawellemmet"@ {
        Option::Some("Tifinagh"@)
    } else {
        Option::None
    }
}

pub open spec fn script_chunk9(s: Seq<char>) -> Option<Seq<char>> {
    if s == "Sans Tirhuta"@ {
        Option::Some("Tirhuta"@)
    } else if s == "Serif Toto"@ {
        Option::Some("Toto"@)
    } else if s == "Sans Ugaritic"@ {
        Option::Some("Ugaritic"@)
    } else if s == "Sans Vai"@ {
        Option::Some("Vai"@)
    } else if s == "Sans Vithkuqi"@ || s == "Serif Vithkuqi"@ {
        Option::Some("Vithkuqi"@)
    } else if s == "Sans Wancho"@ {
        Option::Some("Wancho"@)
    } else if s == "Sans WarangCiti"@ {
        Option::Some("Warang Citi"@)
    } else if s == "Serif Yezidi"@ {
        Option::Some("Yezidi"@)
    } else if s == "Sans Yi"@ {
        Option::Some("Yi"@)
    } else if s == "Sans Zanabazar"@ {
        Option::Some("Zanabazar"@)
    } else if s == "Znamenny Musical Notation"@ {
        Option::Some("Znamenny Musical Notation"@)
    } else {
        Option::None
    }
}

/// The classifier table: the canonical script name of a known variant,
/// or `None` for a name outside the table (a taxonomy gap).
pub open spec fn spec_script(s: Seq<char>) -> Option<Seq<char>> {
    match script_chunk1(s) {
        Option::Some(r) => Option::Some(r),
        Option::None => match script_chunk2(s) {
        Option::Some(r) => Option::Some(r),
        Option::None => match script_chunk3(s) {
        Option::Some(r) => Option::Some(r),
        Option::None => match script_chunk4(s) {
        Option::Some(r) => Option::Some(r),
        Option::None => match script_chunk5(s) {
        Option::Some(r) => Option::Some(r),
        Option::None => match script_chunk6(s) {
        Option::Some(r) => Option::Some(r),
        Option::None => match script_chunk7(s) {
        Option::Some(r) => Option::Some(r),
        Option::None => match script_chunk8(s) {
        Option::Some(r) => Option::Some(r),
        Option::None => match script_chunk9(s) {
        Option::Some(r) => Option::Some(r),
        Option::None => Option::None,
    },
    },
    },
    },
    },
    },
    },
    },
    }
}

fn script_chunk1_exec(font: &str) -> (r: Option<String>)
    ensures
        opt_str_view(r) == script_chunk1(font@),
{
    if str_eq(font, "Sans") || str_eq(font, "Serif") || str_eq(font, "Sans Mono") {
        Option::Some(String::from_str(""))
    } else if str_eq(font, "Sans Adlam") || str_eq(font, "Sans Adlam Unjoined") {
        Option::Some(String::from_str("Adlam"))
    } else if str_eq(font, "Serif Ahom") {
        Option::Some(String::from_str("Ahom"))
    } else if str_eq(font, "Sans AnatoHiero") {
        Option::Some(String::from_str("Anatolian Hieroglyphs"))
    } else if str_eq(font, "Sans Arabic") || str_eq(font, "Kufi Arabic") || str_eq(font, "Naskh Arabic") || str_eq(font, "Nastaliq Urdu") {
        Option::Some(String::from_str("Arabic"))
    } else if str_eq(font, "Sans Armenian") || str_eq(font, "Serif Armenian") {
        Option::Some(String::from_str("Armenian"))
    } else if str_eq(font, "Sans Avestan") {
        Option::Some(String::from_str("Avestan"))
    } else if str_eq(font, "Sans Balinese") || str_eq(font, "Serif Balinese") {
        Option::Some(String::from_str("Balinese"))
    } else if str_eq(font, "Sans Bamum") {
        Option::Some(String::from_str("Bamum"))
    } else if str_eq(font, "Sans Bassa Vah") {
        Option::Some(String::from_str("Bassa Vah"))
    } else if str_eq(font, "Sans Batak") {
        Option::Some(String::from_str("Batak"))
    } else if str_eq(font, "Sans Bengali") || str_eq(font, "Serif Bengali") {
        Option::Some(String::from_str("Bengali"))
    } else if str_eq(font, "Sans Bhaiksuki") {
        Option::Some(String::from_str("Bhaiksuki"))
    } else if str_eq(font, "Sans Brahmi") {
        Option::Some(String::from_str("Brahmi"))
    } else if str_eq(font, "Sans Buginese") {
        Option::Some(String::from_str("Buginese"))
    } else if str_eq(font, "Sans Buhid") {
        Option::Some(String::from_str("Buhid"))
    } else if str_eq(font, "Sans Canadian Aboriginal") {
        Option::Some(String::from_str("Canadian Aboriginal"))
    } else if str_eq(font, "Sans Carian") {
        Option::Some(String::from_str("Carian"))
    } else if str_eq(font, "Sans Caucasian Albanian") {
        Option::Some(String::from_str("Caucasian Albanian"))
    } else {
        Option::None
    }
}

fn script_chunk2_exec(font: &str) -> (r: Option<String>)
    ensures
        opt_str_view(r) == script_chunk2(font@),
{
    if str_eq(font, "Sans Chakma") {
        Option::Some(String::from_str("Chakma"))
    } else if str_eq(font, "Sans Cham") {
        Option::Some(String::from_str("Cham"))
    } else if str_eq(font, "Sans Cherokee") {
        Option::Some(String::from_str("Cherokee"))
    } else if str_eq(font, "Sans Chorasmian") {
        Option::Some(String::from_str("Chorasmian"))
    } else if str_eq(font, "Sans CJK HK") || str_eq(font, "Sans CJK JP") || str_eq(font, "Sans CJK KR") || str_eq(font, "Sans CJK SC") || str_eq(font, "Sans CJK TC") {
        Option::Some(String::from_str("CJK"))
    } else if str_eq(font, "Sans Coptic") {
        Option::Some(String::from_str("Coptic"))
    } else if str_eq(font, "Sans Cuneiform") {
        Option::Some(String::from_str("Cuneiform"))
    } else if str_eq(font, "Sans Cypriot") {
        Option::Some(String::from_str("Cypriot"))
    } else if str_eq(font, "Sans Cypro Minoan") {
        Option::Some(String::from_str("Cypro Minoan"))
    } else if str_eq(font, "Sans Deseret") {
        Option::Some(String::from_str("Deseret"))
    } else if str_eq(font, "Sans Devanagari") || str_eq(font, "Serif Devanagari") {
        Option::Some(String::from_str("Devanagari"))
    } else if str_eq(font, "Serif Dives Akuru") {
        Option::Some(String::from_str("Dives Akuru"))
    } else if str_eq(font, "Serif Dogra") {
        Option::Some(String::from_str("Dogra"))
    } else if str_eq(font, "Sans Duployan") {
        Option::Some(String::from_str("Duployan"))
    } else if str_eq(font, "Sans EgyptHiero") {
        Option::Some(String::from_str("Egyptian Hieroglyphs"))
    } else if str_eq(font, "Sans Elbasan") {
        Option::Some(String::from_str("Elbasan"))
    } else if str_eq(font, "Sans Elymaic") {
        Option::Some(String::from_str("Elymaic"))
    } else if str_eq(font, "Color Emoji") {
        Option::Some(String::from_str("Emoji"))
    } else if str_eq(font, "Sans Ethiopic") || str_eq(font, "Serif Ethiopic") {
        Option::Some(String::from_str("Ethiopic"))
    } else {
        Option::None
    }
}

fn script_chunk3_exec(font: &str) -> (r: Option<String>)
    ensures
        opt_str_view(r) == script_chunk3(font@),
{
    if str_eq(font, "Sans Georgian") || str_eq(font, "Serif Georgian") {
        Option::Some(String::from_str("Georgian"))
    } else if str_eq(font, "Sans Glagolitic") {
        Option::Some(String::from_str("Glagolitic"))
    } else if str_eq(font, "Sans Gothic") {
        Option::Some(String::from_str("Gothic"))
    } else if str_eq(font, "Sans Grantha") || str_eq(font, "Serif Grantha") {
        Option::Some(String::from_str("Grantha"))
    } else if str_eq(font, "Sans Gujarati") || str_eq(font, "Serif Gujarati") {
        Option::Some(String::from_str("Gujarati"))
    } else if str_eq(font, "Sans Gunjala Gondi") {
        Option::Some(String::from_str("Gunjala Gondi"))
    } else if str_eq(font, "Sans Gurmukhi") || str_eq(font, "Serif Gurmukhi") {
        Option::Some(String::from_str("Gurmukhi"))
    } else if str_eq(font, "Sans Hanifi Rohingya") {
        Option::Some(String::from_str("Hanifi Rohingya"))
    } else if str_eq(font, "Sans Hanunoo") {
        Option::Some(String::from_str("Hanunoo"))
    } else if str_eq(font, "Sans Hatran") {
        Option::Some(String::from_str("Hatran"))
    } else if str_eq(font, "Sans Hebrew") || str_eq(font, "Serif Hebrew") || str_eq(font, "Rashi Hebrew") {
        Option::Some(String::from_str("Hebrew"))
    } else if str_eq(font, "Sans ImpAramaic") {
        Option::Some(String::from_str("Imperial Aramaic"))
    } else if str_eq(font, "Sans Indic Siyaq Numbers") {
        Option::Some(String::from_str("Indic Siyaq Numbers"))
    } else if str_eq(font, "Sans InsPahlavi") {
        Option::Some(String::from_str("Inscriptional Pahlavi"))
    } else if str_eq(font, "Sans Inscriptional Parthian") {
        Option::Some(String::from_str("Inscriptional Parthian"))
    } else if str_eq(font, "Sans Javanese") {
        Option::Some(String::from_str("Javanese"))
    } else if str_eq(font, "Sans Kaithi") {
        Option::Some(String::from_str("Kaithi"))
    } else if str_eq(font, "Sans Kannada") || str_eq(font, "Serif Kannada") {
        Option::Some(String::from_str("Kannada"))
    } else if str_eq(font, "Sans Kawi") {
        Option::Some(String::from_str("Kawi"))
    } else {
        Option::None
    }
}

fn script_chunk4_exec(font: &str) -> (r: Option<String>)
    ensures
        opt_str_view(r) == script_chunk4(font@),
{
    if str_eq(font, "Serif Khitan Small Script") || str_eq(font, "Fangsong KSS Rotated") || str_eq(font, "Fangsong KSS Vertical") {
        Option::Some(String::from_str("Khitan"))
    } else if str_eq(font, "Sans Kayah Li") {
        Option::Some(String::from_str("Kayah Li"))
    } else if str_eq(font, "Sans Kharoshthi") {
        Option::Some(String::from_str("Kharoshthi"))
    } else if str_eq(font, "Sans Khmer") || str_eq(font, "Serif Khmer") {
        Option::Some(String::from_str("Khmer"))
    } else if str_eq(font, "Sans Khojki") || str_eq(font, "Serif Khojki") {
        Option::Some(String::from_str("Khojki"))
    } else if str_eq(font, "Sans Khudawadi") {
        Option::Some(String::from_str("Khudawadi"))
    } else if str_eq(font, "Sans Lao") || str_eq(font, "Sans Lao Looped") || str_eq(font, "Serif Lao") {
        Option::Some(String::from_str("Lao"))
    } else if str_eq(font, "Sans Lepcha") {
        Option::Some(String::from_str("Lepcha"))
    } else if str_eq(font, "Sans Limbu") {
        Option::Some(String::from_str("Limbu"))
    } else if str_eq(font, "Sans Linear A") {
        Option::Some(String::from_str("Linear A"))
    } else if str_eq(font, "Sans Linear B") {
        Option::Some(String::from_str("Linear B"))
    } else if str_eq(font, "Sans Lisu") {
        Option::Some(String::from_str("Lisu"))
    } else if str_eq(font, "Sans Lycian") {
        Option::Some(String::from_str("Lycian"))
    } else if str_eq(font, "Sans Lydian") {
        Option::Some(String::from_str("Lydian"))
    } else if str_eq(font, "Sans Mahajani") {
        Option::Some(String::from_str("Mahajani"))
    } else if str_eq(font, "Sans Malayalam") || str_eq(font, "Serif Malayalam") {
        Option::Some(String::from_str("Malayalam"))
    } else if str_eq(font, "Sans Mandaic") {
        Option::Some(String::from_str("Mandaic"))
    } else if str_eq(font, "Serif Makasar") {
        Option::Some(String::from_str("Makasar"))
    } else if str_eq(font, "Sans Manichaean") {
        Option::Some(String::from_str("Manichaean"))
    } else {
        Option::None
    }
}

fn script_chunk5_exec(font: &str) -> (r: Option<String>)
    ensures
        opt_str_view(r) == script_chunk5(font@),
{
    if str_eq(font, "Sans Masaram Gondi") {
        Option::Some(String::from_str("Masaram Gondi"))
    } else if str_eq(font, "Sans Marchen") {
        Option::Some(String::from_str("Marchen"))
    } else if str_eq(font, "Sans Math") {
        Option::Some(String::from_str("Math"))
    } else if str_eq(font, "Sans Mayan Numerals") {
        Option::Some(String::from_str("Mayan Numerals"))
    } else if str_eq(font, "Sans Medefaidrin") {
        Option::Some(String::from_str("Medefaidrin"))
    } else if str_eq(font, "Sans Meetei Mayek") {
        Option::Some(String::from_str("Meetei Mayek"))
    } else if str_eq(font, "Sans Mende Kikakui") {
        Option::Some(String::from_str("Mende Kikakui"))
    } else if str_eq(font, "Sans Meroitic") {
        Option::Some(String::from_str("Meroitic"))
    } else if str_eq(font, "Sans Miao") {
        Option::Some(String::from_str("Miao"))
    } else if str_eq(font, "Sans Modi") {
        Option::Some(String::from_str("Modi"))
    } else if str_eq(font, "Sans Mongolian") {
        Option::Some(String::from_str("Mongolian"))
    } else if str_eq(font, "Sans Mro") {
        Option::Some(String::from_str("Mro"))
    } else if str_eq(font, "Sans Multani") {
        Option::Some(String::from_str("Multani"))
    } else if str_eq(font, "Music") {
        Option::Some(String::from_str("Music"))
    } else if str_eq(font, "Sans Myanmar") || str_eq(font, "Serif Myanmar") {
        Option::Some(String::from_str("Myanmar"))
    } else if str_eq(font, "Sans Nabataean") {
        Option::Some(String::from_str("Nabataean"))
    } else if str_eq(font, "Sans Nag Mundari") {
        Option::Some(String::from_str("Nag Mundari"))
    } else if str_eq(font, "Sans Nandinagari") {
        Option::Some(String::from_str("Nandinagari"))
    } else if str_eq(font, "Sans New Tai Lue") {
        Option::Some(String::from_str("New Tai Lue"))
    } else {
        Option::None
    }
}

fn script_chunk6_exec(font: &str) -> (r: Option<String>)
    ensures
        opt_str_view(r) == script_chunk6(font@),
{
    if str_eq(font, "Sans Newa") {
        Option::Some(String::from_str("Newa"))
    } else if str_eq(font, "Sans NKo") || str_eq(font, "Sans NKo Unjoined") {
        Option::Some(String::from_str("NKo"))
    } else if str_eq(font, "Sans Nushu") || str_eq(font, "Traditional Nushu") {
        Option::Some(String::from_str("Nushu"))
    } else if str_eq(font, "Serif NP Hmong") {
        Option::Some(String::from_str("Nyiakeng Puachue Hmong"))
    } else if str_eq(font, "Sans Ogham") {
        Option::Some(String::from_str("Ogham"))
    } else if str_eq(font, "Sans Ol Chiki") {
        Option::Some(String::from_str("Ol Chiki"))
    } else if str_eq(font, "Sans OldHung") {
        Option::Some(String::from_str("Old Hungarian"))
    } else if str_eq(font, "Sans Old Italic") {
        Option::Some(String::from_str("Old Italic"))
    } else if str_eq(font, "Sans OldNorArab") {
        Option::Some(String::from_str("Old North Arabian"))
    } else if str_eq(font, "Sans Old Permic") {
        Option::Some(String::from_str("Old Permic"))
    } else if str_eq(font, "Sans OldPersian") {
        Option::Some(String::from_str("Old Persian"))
    } else if str_eq(font, "Sans OldSogdian") {
        Option::Some(String::from_str("Old Sogdian"))
    } else if str_eq(font, "Sans OldSouArab") {
        Option::Some(String::from_str("Old South Arabian"))
    } else if str_eq(font, "Sans Old Turkic") {
        Option::Some(String::from_str("Old Turkic"))
    } else if str_eq(font, "Serif Old Uyghur") {
        Option::Some(String::from_str("Old Uyghur"))
    } else if str_eq(font, "Sans Oriya") || str_eq(font, "Serif Oriya") {
        Option::Some(String::from_str("Oriya"))
    } else if str_eq(font, "Sans Osage") {
        Option::Some(String::from_str("Osage"))
    } else if str_eq(font, "Sans Osmanya") {
        Option::Some(String::from_str("Osmanya"))
    } else if str_eq(font, "Serif Ottoman Siyaq") {
        Option::Some(String::from_str("Ottoman Siyaq"))
    } else {
        Option::None
    }
}

fn script_chunk7_exec(font: &str) -> (r: Option<String>)
    ensures
        opt_str_view(r) == script_chunk7(font@),
{
    if str_eq(font, "Sans Pahawh Hmong") {
        Option::Some(String::from_str("Pahawh Hmong"))
    } else if str_eq(font, "Sans Palmyrene") {
        Option::Some(String::from_str("Palmyrene"))
    } else if str_eq(font, "Sans PauCinHau") {
        Option::Some(String::from_str("Pau Cin Hau"))
    } else if str_eq(font, "Sans PhagsPa") {
        Option::Some(String::from_str("Phags-Pa"))
    } else if str_eq(font, "Sans Phoenician") {
        Option::Some(String::from_str("Phoenician"))
    } else if str_eq(font, "Sans PsaPahlavi") {
        Option::Some(String::from_str("Psalter Pahlavi"))
    } else if str_eq(font, "Sans Rejang") {
        Option::Some(String::from_str("Rejang"))
    } else if str_eq(font, "Sans Runic") {
        Option::Some(String::from_str("Runic"))
    } else if str_eq(font, "Sans Samaritan") {
        Option::Some(String::from_str("Samaritan"))
    } else if str_eq(font, "Sans Saurashtra") {
        Option::Some(String::from_str("Saurashtra"))
    } else if str_eq(font, "Sans Sharada") {
        Option::Some(String::from_str("Sharada"))
    } else if str_eq(font, "Sans Shavian") {
        Option::Some(String::from_str("Shavian"))
    } else if str_eq(font, "Sans Siddham") {
        Option::Some(String::from_str("Siddham"))
    } else if str_eq(font, "Sans SignWriting") {
        Option::Some(String::from_str("SignWriting"))
    } else if str_eq(font, "Sans Sinhala") || str_eq(font, "Serif Sinhala") {
        Option::Some(String::from_str("Sinhala"))
    } else if str_eq(font, "Sans Sogdian") {
        Option::Some(String::from_str("Sogdian"))
    } else if str_eq(font, "Sans Sora Sompeng") {
        Option::Some(String::from_str("Sora Sompeng"))
    } else if str_eq(font, "Sans Soyombo") {
        Option::Some(String::from_str("Soyombo"))
    } else if str_eq(font, "Sans Sundanese") {
        Option::Some(String::from_str("Sundanese"))
    } else {
        Option::None
    }
}

fn script_chunk8_exec(font: &str) -> (r: Option<String>)
    ensures
        opt_str_view(r) == script_chunk8(font@),
{
    if str_eq(font, "Sans Syloti Nagri") {
        Option::Some(String::from_str("Syloti Nagri"))
    } else if str_eq(font, "Sans Symbols") {
        Option::Some(String::from_str("Symbols"))
    } else if str_eq(font, "Sans Symbols 2") {
        Option::Some(String::from_str("Symbols 2"))
    } else if str_eq(font, "Sans Syriac") || str_eq(font, "Sans Syriac Eastern") || str_eq(font, "Sans Syriac Western") {
        Option::Some(String::from_str("Syriac"))
    } else if str_eq(font, "Sans Tamil") || str_eq(font, "Serif Tamil") {
        Option::Some(String::from_str("Tamil"))
    } else if str_eq(font, "Sans Tamil Supplement") {
        Option::Some(String::from_str("Tamil Supplement"))
    } else if str_eq(font, "Sans Tagalog") {
        Option::Some(String::from_str("Tagalog"))
    } else if str_eq(font, "Sans Tagbanwa") {
        Option::Some(String::from_str("Tagbanwa"))
    } else if str_eq(font, "Sans Tai Le") {
        Option::Some(String::from_str("Tai Le"))
    } else if str_eq(font, "Sans Tai Tham") {
        Option::Some(String::from_str("Tai Tham"))
    } else if str_eq(font, "Sans Tai Viet") {
        Option::Some(String::from_str("Tai Viet"))
    } else if str_eq(font, "Sans Takri") {
        Option::Some(String::from_str("Takri"))
    } else if str_eq(font, "Sans Tangsa") {
        Option::Some(String::from_str("Tangsa"))
    } else if str_eq(font, "Serif Tangut") {
        Option::Some(String::from_str("Tangut"))
    } else if str_eq(font, "Sans Telugu") || str_eq(font, "Serif Telugu") {
        Option::Some(String::from_str("Telugu"))
    } else if str_eq(font, "Sans Thaana") {
        Option::Some(String::from_str("Thaana"))
    } else if str_eq(font, "Sans Thai") || str_eq(font, "Sans Thai Looped Regular") || str_eq(font, "Serif Thai") {
        Option::Some(String::from_str("Thai"))
    } else if str_eq(font, "Serif Tibetan") {
        Option::Some(String::from_str("Tibetan"))
    } else if str_eq(font, "Sans Tifinagh") || str_eq(font, "Sans Tifinagh APT") || str_eq(font, "Sans Tifinagh Adrar") || str_eq(font, "Sans Tifinagh Agraw Imazighen") || str_eq(font, "Sans Tifinagh Ahaggar") || str_eq(font, "Sans Tifinagh Air") || str_eq(font, "Sans Tifinagh Azawagh") || str_eq(font, "Sans Tifinagh Ghat") || str_eq(font, "Sans Tifinagh Hawad") || str_eq(font, "Sans Tifinagh Rhissa Ixa") || str_eq(font, "Sans Tifinagh SIL") || str_eq(font, "Sans Tifinagh Tawellemmet") {
        Option::Some(String::from_str("Tifinagh"))
    } else {
        Option::None
    }
}

fn script_chunk9_exec(font: &str) -> (r: Option<String>)
    ensures
        opt_str_view(r) == script_chunk9(font@),
{
    if str_eq(font, "Sans Tirhuta") {
        Option::Some(String::from_str("Tirhuta"))
    } else if str_eq(font, "Serif Toto") {
        Option::Some(String::from_str("Toto"))
    } else if str_eq(font, "Sans Ugaritic") {
        Option::Some(String::from_str("Ugaritic"))
    } else if str_eq(font, "Sans Vai") {
        Option::Some(String::from_str("Vai"))
    } else if str_eq(font, "Sans Vithkuqi") || str_eq(font, "Serif Vithkuqi") {
        Option::Some(String::from_str("Vithkuqi"))
    } else if str_eq(font, "Sans Wancho") {
        Option::Some(String::from_str("Wancho"))
    } else if str_eq(font, "Sans WarangCiti") {
        Option::Some(String::from_str("Warang Citi"))
    } else if str_eq(font, "Serif Yezidi") {
        Option::Some(String::from_str("Yezidi"))
    } else if str_eq(font, "Sans Yi") {
        Option::Some(String::from_str("Yi"))
    } else if str_eq(font, "Sans Zanabazar") {
        Option::Some(String::from_str("Zanabazar"))
    } else if str_eq(font, "Znamenny Musical Notation") {
        Option::Some(String::from_str("Znamenny Musical Notation"))
    } else {
        Option::None
    }
}

/// A canonical script identifier derived from a font-variant name.
#[derive(Clone, Debug)]
pub struct Script(pub String);

impl PartialEq for Script {
    fn eq(&self, o: &Script) -> (r: bool) {
        self.0 == o.0
    }
}

impl vstd::std_specs::cmp::PartialEqSpecImpl for Script {
    open spec fn obeys_eq_spec() -> bool {
        true
    }

    open spec fn eq_spec(&self, o: &Script) -> bool {
        self.0@ == o.0@
    }
}

/// Classifies a font-variant name; `None` means the name is not in the
/// table, which callers treat as a fatal taxonomy gap.
pub fn script(font: &str) -> (r: Option<Script>)
    ensures
        match r {
            Option::Some(sc) => spec_script(font@) == Option::Some(sc.0@),
            Option::None => spec_script(font@) is None,
        },
{
    match script_chunk1_exec(font) {
        Option::Some(s) => {
            return Option::Some(Script(s));
        },
        Option::None => {},
    }
    match script_chunk2_exec(font) {
        Option::Some(s) => {
            return Option::Some(Script(s));
        },
        Option::None => {},
    }
    match script_chunk3_exec(font) {
        Option::Some(s) => {
            return Option::Some(Script(s));
        },
        Option::None => {},
    }
    match script_chunk4_exec(font) {
        Option::Some(s) => {
            return Option::Some(Script(s));
        },
        Option::None => {},
    }
    match script_chunk5_exec(font) {
        Option::Some(s) => {
            return Option::Some(Script(s));
        },
        Option::None => {},
    }
    match script_chunk6_exec(font) {
        Option::Some(s) => {
            return Option::Some(Script(s));
        },
        Option::None => {},
    }
    match script_chunk7_exec(font) {
        Option::Some(s) => {
            return Option::Some(Script(s));
        },
        Option::None => {},
    }
    match script_chunk8_exec(font) {
        Option::Some(s) => {
            return Option::Some(Script(s));
        },
        Option::None => {},
    }
    match script_chunk9_exec(font) {
        Option::Some(s) => {
            return Option::Some(Script(s));
        },
        Option::None => {},
    }
    Option::None
}

pub open spec fn variants_chunk1() -> Seq<Seq<char>> {
    seq!["Sans"@, "Serif"@, "Sans Mono"@, "Sans Adlam"@, "Sans Adlam Unjoined"@, "Serif Ahom"@, "Sans AnatoHiero"@, "Sans Arabic"@, "Kufi Arabic"@, "Naskh Arabic"@, "Nastaliq Urdu"@, "Sans Armenian"@, "Serif Armenian"@, "Sans Avestan"@, "Sans Balinese"@, "Serif Balinese"@, "Sans Bamum"@, "Sans Bassa Vah"@, "Sans Batak"@, "Sans Bengali"@, "Serif Bengali"@, "Sans Bhaiksuki"@, "Sans Brahmi"@, "Sans Buginese"@, "Sans Buhid"@, "Sans Canadian Aboriginal"@, "Sans Carian"@, "Sans Caucasian Albanian"@, "Sans Chakma"@, "Sans Cham"@]
}

pub open spec fn variants_chunk2() -> Seq<Seq<char>> {
    seq!["Sans Cherokee"@, "Sans Chorasmian"@, "Sans CJK HK"@, "Sans CJK JP"@, "Sans CJK KR"@, "Sans CJK SC"@, "Sans CJK TC"@, "Sans Coptic"@, "Sans Cuneiform"@, "Sans Cypriot"@, "Sans Cypro Minoan"@, "Sans Deseret"@, "Sans Devanagari"@, "Serif Devanagari"@, "Serif Dives Akuru"@, "Serif Dogra"@, "Sans Duployan"@, "Sans EgyptHiero"@, "Sans Elbasan"@, "Sans Elymaic"@, "Color Emoji"@, "Sans Ethiopic"@, "Serif Ethiopic"@, "Sans Georgian"@, "Serif Georgian"@, "Sans Glagolitic"@, "Sans Gothic"@, "Sans Grantha"@, "Serif Grantha"@, "Sans Gujarati"@]
}

pub open spec fn variants_chunk3() -> Seq<Seq<char>> {
    seq!["Serif Gujarati"@, "Sans Gunjala Gondi"@, "Sans Gurmukhi"@, "Serif Gurmukhi"@, "Sans Hanifi Rohingya"@, "Sans Hanunoo"@, "Sans Hatran"@, "Sans Hebrew"@, "Serif Hebrew"@, "Rashi Hebrew"@, "Sans ImpAramaic"@, "Sans Indic Siyaq Numbers"@, "Sans InsPahlavi"@, "Sans Inscriptional Parthian"@, "Sans Javanese"@, "Sans Kaithi"@, "Sans Kannada"@, "Serif Kannada"@, "Sans Kawi"@, "Serif Khitan Small Script"@, "Fangsong KSS Rotated"@, "Fangsong KSS Vertical"@, "Sans Kayah Li"@, "Sans Kharoshthi"@, "Sans Khmer"@, "Serif Khmer"@, "Sans Khojki"@, "Serif Khojki"@, "Sans Khudawadi"@, "Sans Lao"@]
}

pub open spec fn variants_chunk4() -> Seq<Seq<char>> {
    seq!["Sans Lao Looped"@, "Serif Lao"@, "Sans Lepcha"@, "Sans Limbu"@, "Sans Linear A"@, "Sans Linear B"@, "Sans Lisu"@, "Sans Lycian"@, "Sans Lydian"@, "Sans Mahajani"@, "Sans Malayalam"@, "Serif Malayalam"@, "Sans Mandaic"@, "Serif Makasar"@, "Sans Manichaean"@, "Sans Masaram Gondi"@, "Sans Marchen"@, "Sans Math"@, "Sans Mayan Numerals"@, "Sans Medefaidrin"@, "Sans Meetei Mayek"@, "Sans Mende Kikakui"@, "Sans Meroitic"@, "Sans Miao"@, "Sans Modi"@, "Sans Mongolian"@, "Sans Mro"@, "Sans Multani"@, "Music"@, "Sans Myanmar"@]
}

pub open spec fn variants_chunk5() -> Seq<Seq<char>> {
    seq!["Serif Myanmar"@, "Sans Nabataean"@, "Sans Nag Mundari"@, "Sans Nandinagari"@, "Sans New Tai Lue"@, "Sans Newa"@, "Sans NKo"@, "Sans NKo Unjoined"@, "Sans Nushu"@, "Traditional Nushu"@, "Serif NP Hmong"@, "Sans Ogham"@, "Sans Ol Chiki"@, "Sans OldHung"@, "Sans Old Italic"@, "Sans OldNorArab"@, "Sans Old Permic"@, "Sans OldPersian"@, "Sans OldSogdian"@, "Sans OldSouArab"@, "Sans Old Turkic"@, "Serif Old Uyghur"@, "Sans Oriya"@, "Serif Oriya"@, "Sans Osage"@, "Sans Osmanya"@, "Serif Ottoman Siyaq"@, "Sans Pahawh Hmong"@, "Sans Palmyrene"@, "Sans PauCinHau"@]
}

pub open spec fn variants_chunk6() -> Seq<Seq<char>> {
    seq!["Sans PhagsPa"@, "Sans Phoenician"@, "Sans PsaPahlavi"@, "Sans Rejang"@, "Sans Runic"@, "Sans Samaritan"@, "Sans Saurashtra"@, "Sans Sharada"@, "Sans Shavian"@, "Sans Siddham"@, "Sans SignWriting"@, "Sans Sinhala"@, "Serif Sinhala"@, "Sans Sogdian"@, "Sans Sora Sompeng"@, "Sans Soyombo"@, "Sans Sundanese"@, "Sans Syloti Nagri"@, "Sans Symbols"@, "Sans Symbols 2"@, "Sans Syriac"@, "Sans Syriac Eastern"@, "Sans Syriac Western"@, "Sans Tamil"@, "Serif Tamil"@, "Sans Tamil Supplement"@, "Sans Tagalog"@, "Sans Tagbanwa"@, "Sans Tai Le"@, "Sans Tai Tham"@]
}

pub open spec fn variants_chunk7() -> Seq<Seq<char>> {
    seq!["Sans Tai Viet"@, "Sans Takri"@, "Sans Tangsa"@, "Serif Tangut"@, "Sans Telugu"@, "Serif Telugu"@, "Sans Thaana"@, "Sans Thai"@, "Sans Thai Looped Regular"@, "Serif Thai"@, "Serif Tibetan"@, "Sans Tifinagh"@, "Sans Tifinagh APT"@, "Sans Tifinagh Adrar"@, "Sans Tifinagh Agraw Imazighen"@, "Sans Tifinagh Ahaggar"@, "Sans Tifinagh Air"@, "Sans Tifinagh Azawagh"@, "Sans Tifinagh Ghat"@, "Sans Tifinagh Hawad"@, "Sans Tifinagh Rhissa Ixa"@, "Sans Tifinagh SIL"@, "Sans Tifinagh Tawellemmet"@, "Sans Tirhuta"@, "Serif Toto"@, "Sans Ugaritic"@, "Sans Vai"@, "Sans Vithkuqi"@, "Serif Vithkuqi"@, "Sans Wancho"@]
}

pub open spec fn variants_chunk8() -> Seq<Seq<char>> {
    seq!["Sans WarangCiti"@, "Serif Yezidi"@, "Sans Yi"@, "Sans Zanabazar"@, "Znamenny Musical Notation"@]
}

/// Every variant name of the classifier table, in table order.
pub open spec fn spec_all_variants() -> Seq<Seq<char>> {
    variants_chunk1() + variants_chunk2() + variants_chunk3() + variants_chunk4() + variants_chunk5() + variants_chunk6() + variants_chunk7() + variants_chunk8()
}

fn push_variants_chunk1(v: &mut Vec<String>)
    ensures
        final(v)@.len() == old(v)@.len() + variants_chunk1().len(),
        forall|i: int| 0 <= i < old(v)@.len() ==> final(v)@[i] == old(v)@[i],
        forall|i: int|
            0 <= i < variants_chunk1().len() ==> final(v)@[old(v)@.len() + i]@
                == variants_chunk1()[i],
{
    v.push(String::from_str("Sans"));
    v.push(String::from_str("Serif"));
    v.push(String::from_str("Sans Mono"));
    v.push(String::from_str("Sans Adlam"));
    v.push(String::from_str("Sans Adlam Unjoined"));
    v.push(String::from_str("Serif Ahom"));
    v.push(String::from_str("Sans AnatoHiero"));
    v.push(String::from_str("Sans Arabic"));
    v.push(String::from_str("Kufi Arabic"));
    v.push(String::from_str("Naskh Arabic"));
    v.push(String::from_str("Nastaliq Urdu"));
    v.push(String::from_str("Sans Armenian"));
    v.push(String::from_str("Serif Armenian"));
    v.push(String::from_str("Sans Avestan"));
    v.push(String::from_str("Sans Balinese"));
    v.push(String::from_str("Serif Balinese"));
    v.push(String::from_str("Sans Bamum"));
    v.push(String::from_str("Sans Bassa Vah"));
    v.push(String::from_str("Sans Batak"));
    v.push(String::from_str("Sans Bengali"));
    v.push(String::from_str("Serif Bengali"));
    v.push(String::from_str("Sans Bhaiksuki"));
    v.push(String::from_str("Sans Brahmi"));
    v.push(String::from_str("Sans Buginese"));
    v.push(String::from_str("Sans Buhid"));
    v.push(String::from_str("Sans Canadian Aboriginal"));
    v.push(String::from_str("Sans Carian"));
    v.push(String::from_str("Sans Caucasian Albanian"));
    v.push(String::from_str("Sans Chakma"));
    v.push(String::from_str("Sans Cham"));
}

fn push_variants_chunk2(v: &mut Vec<String>)
    ensures
        final(v)@.len() == old(v)@.len() + variants_chunk2().len(),
        forall|i: int| 0 <= i < old(v)@.len() ==> final(v)@[i] == old(v)@[i],
        forall|i: int|
            0 <= i < variants_chunk2().len() ==> final(v)@[old(v)@.len() + i]@
                == variants_chunk2()[i],
{
    v.push(String::from_str("Sans Cherokee"));
    v.push(String::from_str("Sans Chorasmian"));
    v.push(String::from_str("Sans CJK HK"));
    v.push(String::from_str("Sans CJK JP"));
    v.push(String::from_str("Sans CJK KR"));
    v.push(String::from_str("Sans CJK SC"));
    v.push(String::from_str("Sans CJK TC"));
    v.push(String::from_str("Sans Coptic"));
    v.push(String::from_str("Sans Cuneiform"));
    v.push(String::from_str("Sans Cypriot"));
    v.push(String::from_str("Sans Cypro Minoan"));
    v.push(String::from_str("Sans Deseret"));
    v.push(String::from_str("Sans Devanagari"));
    v.push(String::from_str("Serif Devanagari"));
    v.push(String::from_str("Serif Dives Akuru"));
    v.push(String::from_str("Serif Dogra"));
    v.push(String::from_str("Sans Duployan"));
    v.push(String::from_str("Sans EgyptHiero"));
    v.push(String::from_str("Sans Elbasan"));
    v.push(String::from_str("Sans Elymaic"));
    v.push(String::from_str("Color Emoji"));
    v.push(String::from_str("Sans Ethiopic"));
    v.push(String::from_str("Serif Ethiopic"));
    v.push(String::from_str("Sans Georgian"));
    v.push(String::from_str("Serif Georgian"));
    v.push(String::from_str("Sans Glagolitic"));
    v.push(String::from_str("Sans Gothic"));
    v.push(String::from_str("Sans Grantha"));
    v.push(String::from_str("Serif Grantha"));
    v.push(String::from_str("Sans Gujarati"));
}

fn push_variants_chunk3(v: &mut Vec<String>)
    ensures
        final(v)@.len() == old(v)@.len() + variants_chunk3().len(),
        forall|i: int| 0 <= i < old(v)@.len() ==> final(v)@[i] == old(v)@[i],
        forall|i: int|
            0 <= i < variants_chunk3().len() ==> final(v)@[old(v)@.len() + i]@
                == variants_chunk3()[i],
{
    v.push(String::from_str("Serif Gujarati"));
    v.push(String::from_str("Sans Gunjala Gondi"));
    v.push(String::from_str("Sans Gurmukhi"));
    v.push(String::from_str("Serif Gurmukhi"));
    v.push(String::from_str("Sans Hanifi Rohingya"));
    v.push(String::from_str("Sans Hanunoo"));
    v.push(String::from_str("Sans Hatran"));
    v.push(String::from_str("Sans Hebrew"));
    v.push(String::from_str("Serif Hebrew"));
    v.push(String::from_str("Rashi Hebrew"));
    v.push(String::from_str("Sans ImpAramaic"));
    v.push(String::from_str("Sans Indic Siyaq Numbers"));
    v.push(String::from_str("Sans InsPahlavi"));
    v.push(String::from_str("Sans Inscriptional Parthian"));
    v.push(String::from_str("Sans Javanese"));
    v.push(String::from_str("Sans Kaithi"));
    v.push(String::from_str("Sans Kannada"));
    v.push(String::from_str("Serif Kannada"));
    v.push(String::from_str("Sans Kawi"));
    v.push(String::from_str("Serif Khitan Small Script"));
    v.push(String::from_str("Fangsong KSS Rotated"));
    v.push(String::from_str("Fangsong KSS Vertical"));
    v.push(String::from_str("Sans Kayah Li"));
    v.push(String::from_str("Sans Kharoshthi"));
    v.push(String::from_str("Sans Khmer"));
    v.push(String::from_str("Serif Khmer"));
    v.push(String::from_str("Sans Khojki"));
    v.push(String::from_str("Serif Khojki"));
    v.push(String::from_str("Sans Khudawadi"));
    v.push(String::from_str("Sans Lao"));
}

fn push_variants_chunk4(v: &mut Vec<String>)
    ensures
        final(v)@.len() == old(v)@.len() + variants_chunk4().len(),
        forall|i: int| 0 <= i < old(v)@.len() ==> final(v)@[i] == old(v)@[i],
        forall|i: int|
            0 <= i < variants_chunk4().len() ==> final(v)@[old(v)@.len() + i]@
                == variants_chunk4()[i],
{
    v.push(String::from_str("Sans Lao Looped"));
    v.push(String::from_str("Serif Lao"));
    v.push(String::from_str("Sans Lepcha"));
    v.push(String::from_str("Sans Limbu"));
    v.push(String::from_str("Sans Linear A"));
    v.push(String::from_str("Sans Linear B"));
    v.push(String::from_str("Sans Lisu"));
    v.push(String::from_str("Sans Lycian"));
    v.push(String::from_str("Sans Lydian"));
    v.push(String::from_str("Sans Mahajani"));
    v.push(String::from_str("Sans Malayalam"));
    v.push(String::from_str("Serif Malayalam"));
    v.push(String::from_str("Sans Mandaic"));
    v.push(String::from_str("Serif Makasar"));
    v.push(String::from_str("Sans Manichaean"));
    v.push(String::from_str("Sans Masaram Gondi"));
    v.push(String::from_str("Sans Marchen"));
    v.push(String::from_str("Sans Math"));
    v.push(String::from_str("Sans Mayan Numerals"));
    v.push(String::from_str("Sans Medefaidrin"));
    v.push(String::from_str("Sans Meetei Mayek"));
    v.push(String::from_str("Sans Mende Kikakui"));
    v.push(String::from_str("Sans Meroitic"));
    v.push(String::from_str("Sans Miao"));
    v.push(String::from_str("Sans Modi"));
    v.push(String::from_str("Sans Mongolian"));
    v.push(String::from_str("Sans Mro"));
    v.push(String::from_str("Sans Multani"));
    v.push(String::from_str("Music"));
    v.push(String::from_str("Sans Myanmar"));
}

fn push_variants_chunk5(v: &mut Vec<String>)
    ensures
        final(v)@.len() == old(v)@.len() + variants_chunk5().len(),
        forall|i: int| 0 <= i < old(v)@.len() ==> final(v)@[i] == old(v)@[i],
        forall|i: int|
            0 <= i < variants_chunk5().len() ==> final(v)@[old(v)@.len() + i]@
                == variants_chunk5()[i],
{
    v.push(String::from_str("Serif Myanmar"));
    v.push(String::from_str("Sans Nabataean"));
    v.push(String::from_str("Sans Nag Mundari"));
    v.push(String::from_str("Sans Nandinagari"));
    v.push(String::from_str("Sans New Tai Lue"));
    v.push(String::from_str("Sans Newa"));
    v.push(String::from_str("Sans NKo"));
    v.push(String::from_str("Sans NKo Unjoined"));
    v.push(String::from_str("Sans Nushu"));
    v.push(String::from_str("Traditional Nushu"));
    v.push(String::from_str("Serif NP Hmong"));
    v.push(String::from_str("Sans Ogham"));
    v.push(String::from_str("Sans Ol Chiki"));
    v.push(String::from_str("Sans OldHung"));
    v.push(String::from_str("Sans Old Italic"));
    v.push(String::from_str("Sans OldNorArab"));
    v.push(String::from_str("Sans Old Permic"));
    v.push(String::from_str("Sans OldPersian"));
    v.push(String::from_str("Sans OldSogdian"));
    v.push(String::from_str("Sans OldSouArab"));
    v.push(String::from_str("Sans Old Turkic"));
    v.push(String::from_str("Serif Old Uyghur"));
    v.push(String::from_str("Sans Oriya"));
    v.push(String::from_str("Serif Oriya"));
    v.push(String::from_str("Sans Osage"));
    v.push(String::from_str("Sans Osmanya"));
    v.push(String::from_str("Serif Ottoman Siyaq"));
    v.push(String::from_str("Sans Pahawh Hmong"));
    v.push(String::from_str("Sans Palmyrene"));
    v.push(String::from_str("Sans PauCinHau"));
}

fn push_variants_chunk6(v: &mut Vec<String>)
    ensures
        final(v)@.len() == old(v)@.len() + variants_chunk6().len(),
        forall|i: int| 0 <= i < old(v)@.len() ==> final(v)@[i] == old(v)@[i],
        forall|i: int|
            0 <= i < variants_chunk6().len() ==> final(v)@[old(v)@.len() + i]@
                == variants_chunk6()[i],
{
    v.push(String::from_str("Sans PhagsPa"));
    v.push(String::from_str("Sans Phoenician"));
    v.push(String::from_str("Sans PsaPahlavi"));
    v.push(String::from_str("Sans Rejang"));
    v.push(String::from_str("Sans Runic"));
    v.push(String::from_str("Sans Samaritan"));
    v.push(String::from_str("Sans Saurashtra"));
    v.push(String::from_str("Sans Sharada"));
    v.push(String::from_str("Sans Shavian"));
    v.push(String::from_str("Sans Siddham"));
    v.push(String::from_str("Sans SignWriting"));
    v.push(String::from_str("Sans Sinhala"));
    v.push(String::from_str("Serif Sinhala"));
    v.push(String::from_str("Sans Sogdian"));
    v.push(String::from_str("Sans Sora Sompeng"));
    v.push(String::from_str("Sans Soyombo"));
    v.push(String::from_str("Sans Sundanese"));
    v.push(String::from_str("Sans Syloti Nagri"));
    v.push(String::from_str("Sans Symbols"));
    v.push(String::from_str("Sans Symbols 2"));
    v.push(String::from_str("Sans Syriac"));
    v.push(String::from_str("Sans Syriac Eastern"));
    v.push(String::from_str("Sans Syriac Western"));
    v.push(String::from_str("Sans Tamil"));
    v.push(String::from_str("Serif Tamil"));
    v.push(String::from_str("Sans Tamil Supplement"));
    v.push(String::from_str("Sans Tagalog"));
    v.push(String::from_str("Sans Tagbanwa"));
    v.push(String::from_str("Sans Tai Le"));
    v.push(String::from_str("Sans Tai Tham"));
}

fn push_variants_chunk7(v: &mut Vec<String>)
    ensures
        final(v)@.len() == old(v)@.len() + variants_chunk7().len(),
        forall|i: int| 0 <= i < old(v)@.len() ==> final(v)@[i] == old(v)@[i],
        forall|i: int|
            0 <= i < variants_chunk7().len() ==> final(v)@[old(v)@.len() + i]@
                == variants_chunk7()[i],
{
    v.push(String::from_str("Sans Tai Viet"));
    v.push(String::from_str("Sans Takri"));
    v.push(String::from_str("Sans Tangsa"));
    v.push(String::from_str("Serif Tangut"));
    v.push(String::from_str("Sans Telugu"));
    v.push(String::from_str("Serif Telugu"));
    v.push(String::from_str("Sans Thaana"));
    v.push(String::from_str("Sans Thai"));
    v.push(String::from_str("Sans Thai Looped Regular"));
    v.push(String::from_str("Serif Thai"));
    v.push(String::from_str("Serif Tibetan"));
    v.push(String::from_str("Sans Tifinagh"));
    v.push(String::from_str("Sans Tifinagh APT"));
    v.push(String::from_str("Sans Tifinagh Adrar"));
    v.push(String::from_str("Sans Tifinagh Agraw Imazighen"));
    v.push(String::from_str("Sans Tifinagh Ahaggar"));
    v.push(String::from_str("Sans Tifinagh Air"));
    v.push(String::from_str("Sans Tifinagh Azawagh"));
    v.push(String::from_str("Sans Tifinagh Ghat"));
    v.push(String::from_str("Sans Tifinagh Hawad"));
    v.push(String::from_str("Sans Tifinagh Rhissa Ixa"));
    v.push(String::from_str("Sans Tifinagh SIL"));
    v.push(String::from_str("Sans Tifinagh Tawellemmet"));
    v.push(String::from_str("Sans Tirhuta"));
    v.push(String::from_str("Serif Toto"));
    v.push(String::from_str("Sans Ugaritic"));
    v.push(String::from_str("Sans Vai"));
    v.push(String::from_str("Sans Vithkuqi"));
    v.push(String::from_str("Serif Vithkuqi"));
    v.push(String::from_str("Sans Wancho"));
}

fn push_variants_chunk8(v: &mut Vec<String>)
    ensures
        final(v)@.len() == old(v)@.len() + variants_chunk8().len(),
        forall|i: int| 0 <= i < old(v)@.len() ==> final(v)@[i] == old(v)@[i],
        forall|i: int|
            0 <= i < variants_chunk8().len() ==> final(v)@[old(v)@.len() + i]@
                == variants_chunk8()[i],
{
    v.push(String::from_str("Sans WarangCiti"));
    v.push(String::from_str("Serif Yezidi"));
    v.push(String::from_str("Sans Yi"));
    v.push(String::from_str("Sans Zanabazar"));
    v.push(String::from_str("Znamenny Musical Notation"));
}

/// The flattened classifier table: every known variant name, in a stable
/// order, used to find sibling variants of a script.
pub fn all_variants() -> (r: Vec<String>)
    ensures
        r@.len() == spec_all_variants().len(),
        forall|i: int| 0 <= i < r@.len() ==> r@[i]@ == spec_all_variants()[i],
{
    let mut v: Vec<String> = Vec::new();
    push_variants_chunk1(&mut v);
    push_variants_chunk2(&mut v);
    push_variants_chunk3(&mut v);
    push_variants_chunk4(&mut v);
    push_variants_chunk5(&mut v);
    push_variants_chunk6(&mut v);
    push_variants_chunk7(&mut v);
    push_variants_chunk8(&mut v);
    v
}

/// Every name in `fonts` is in the classifier table.
pub open spec fn all_known(fonts: Seq<Seq<char>>) -> bool {
    forall|i: int| 0 <= i < fonts.len() ==> spec_script(fonts[i]) is Some
}

/// The script name of a known variant; a name outside the table stands for
/// itself.
pub open spec fn spec_script_name(f: Seq<char>) -> Seq<char> {
    match spec_script(f) {
        Option::Some(n) => n,
        Option::None => f,
    }
}

/// The script names of a list of variant names.
pub open spec fn names_of(fonts: Seq<Seq<char>>) -> Seq<Seq<char>> {
    fonts.map(|i: int, f: Seq<char>| spec_script_name(f))
}

/// The distinct script names of `fonts`, ordered by their lower-cased form.
pub open spec fn spec_scripts(fonts: Seq<Seq<char>>) -> Seq<Seq<char>> {
    spec_dedup(spec_sort(SortKey::Lower, names_of(fonts)))
}

/// The distinct scripts appearing among `fonts`, ordered case-insensitively
/// by name.
pub fn scripts(fonts: &[String]) -> (r: Vec<Script>)
    requires
        all_known(views_of(fonts@)),
    ensures
        r@.len() == spec_scripts(views_of(fonts@)).len(),
        forall|i: int| 0 <= i < r@.len() ==> r@[i].0@ == spec_scripts(views_of(fonts@))[i],
{
    let mut names: Vec<String> = Vec::new();
    let mut i: usize = 0;
    proof {
        assert(views_of(names@) =~= names_of(views_of(fonts@).take(0)));
    }
    while i < fonts.len()
        invariant
            i <= fonts@.len(),
            all_known(views_of(fonts@)),
            views_of(names@) == names_of(views_of(fonts@).take(i as int)),
        decreases fonts@.len() - i,
    {
        let ghost pre = views_of(names@);
        match script(&fonts[i]) {
            Option::Some(sc) => {
                names.push(sc.0);
            },
            Option::None => {
                names.push(fonts[i].clone());
            },
        }
        proof {
            assert(views_of(fonts@)[i as int] == fonts@[i as int]@);
            assert(views_of(names@) =~= pre.push(spec_script_name(fonts@[i as int]@)));
            assert(views_of(names@) =~= names_of(views_of(fonts@).take(i as int + 1)));
        }
        i += 1;
    }
    proof {
        assert(views_of(fonts@).take(i as int) =~= views_of(fonts@));
    }
    let sorted = sort_by_key(SortKey::Lower, &names);
    let ded = dedup_strings(&sorted);
    let mut r: Vec<Script> = Vec::new();
    let mut j: usize = 0;
    while j < ded.len()
        invariant
            j <= ded@.len(),
            views_of(ded@) == spec_scripts(views_of(fonts@)),
            r@.len() == j,
            forall|k: int| 0 <= k < j ==> r@[k].0@ == spec_scripts(views_of(fonts@))[k],
        decreases ded@.len() - j,
    {
        proof {
            assert(views_of(ded@)[j as int] == ded@[j as int]@);
        }
        r.push(Script(ded[j].clone()));
        j += 1;
    }
    r
}

/// `v` is a known variant of a non-neutral script that already appears
/// among `fonts` while `v` itself does not.  The neutral script (the empty
/// name, grouping the plain Sans/Serif/Mono faces) never yields missing
/// siblings.
pub open spec fn is_missing_sibling(fonts: Seq<Seq<char>>, v: Seq<char>) -> bool {
    spec_script(v) is Some && spec_script_name(v).len() > 0 && (exists|i: int|
        0 <= i < fonts.len() && spec_script(fonts[i]) == spec_script(v)) && !fonts.contains(v)
}

/// The missing siblings among the variants `vars`, in table order.
pub open spec fn spec_missing_from(fonts: Seq<Seq<char>>, vars: Seq<Seq<char>>) -> Seq<Seq<char>>
    decreases vars.len(),
{
    if vars.len() == 0 {
        Seq::empty()
    } else {
        let rest = spec_missing_from(fonts, vars.drop_last());
        if is_missing_sibling(fonts, vars.last()) {
            rest.push(vars.last())
        } else {
            rest
        }
    }
}

/// Every known variant that shares a script with some member of `fonts` but
/// is not itself a member, in table order.
pub open spec fn spec_missing_variants(fonts: Seq<Seq<char>>) -> Seq<Seq<char>> {
    spec_missing_from(fonts, spec_all_variants())
}

/// Every entry of the missing-sibling list is a known variant.
pub proof fn lemma_missing_all_known(fonts: Seq<Seq<char>>)
    ensures
        all_known(spec_missing_variants(fonts)),
{
    lemma_missing_from_known(fonts, spec_all_variants());
}

proof fn lemma_missing_from_known(fonts: Seq<Seq<char>>, vars: Seq<Seq<char>>)
    ensures
        all_known(spec_missing_from(fonts, vars)),
    decreases vars.len(),
{
    if vars.len() > 0 {
        lemma_missing_from_known(fonts, vars.drop_last());
        let r = spec_missing_from(fonts, vars);
        let rest = spec_missing_from(fonts, vars.drop_last());
        assert forall|i: int| 0 <= i < r.len() implies spec_script(r[i]) is Some by {
            if i < rest.len() {
                assert(r[i] == rest[i]);
                assert(all_known(rest));
            } else {
                assert(r == rest.push(vars.last()));
                assert(is_missing_sibling(fonts, vars.last()));
            }
        }
    }
}

fn any_same_nonneutral_script(fonts: &[String], v: &str) -> (r: bool)
    ensures
        r == (spec_script(v@) is Some && spec_script_name(v@).len() > 0 && (exists|i: int|
            0 <= i < views_of(fonts@).len() && spec_script(views_of(fonts@)[i]) == spec_script(
                v@,
            ))),
{
    let sv = script(v);
    match sv {
        Option::None => false,
        Option::Some(sc) => {
            if sc.0.as_str().is_empty() {
                proof {
                    assert(spec_script_name(v@) == sc.0@);
                }
                return false;
            }
            proof {
                assert(spec_script_name(v@) == sc.0@);
            }
            let mut i: usize = 0;
            while i < fonts.len()
                invariant
                    i <= fonts@.len(),
                    spec_script(v@) == Option::Some(sc.0@),
                    spec_script_name(v@) == sc.0@,
                    sc.0@.len() > 0,
                    forall|j: int|
                        0 <= j < i ==> spec_script(views_of(fonts@)[j]) != spec_script(v@),
                decreases fonts@.len() - i,
            {
                proof {
                    assert(views_of(fonts@)[i as int] == fonts@[i as int]@);
                }
                match script(&fonts[i]) {
                    Option::Some(sf) => {
                        if str_eq(sf.0.as_str(), sc.0.as_str()) {
                            return true;
                        }
                    },
                    Option::None => {},
                }
                i += 1;
            }
            false
        },
    }
}

pub(crate) fn names_contain(fonts: &[String], v: &str) -> (r: bool)
    ensures
        r == views_of(fonts@).contains(v@),
{
    let mut i: usize = 0;
    while i < fonts.len()
        invariant
            i <= fonts@.len(),
            forall|j: int| 0 <= j < i ==> fonts@[j]@ != v@,
        decreases fonts@.len() - i,
    {
        if str_eq(fonts[i].as_str(), v) {
            proof {
                assert(views_of(fonts@)[i as int] == v@);
            }
            return true;
        }
        i += 1;
    }
    proof {
        if views_of(fonts@).contains(v@) {
            let j = choose|j: int| 0 <= j < views_of(fonts@).len() && views_of(fonts@)[j] == v@;
            assert(fonts@[j]@ == v@);
        }
    }
    false
}

/// Every known variant whose non-neutral script appears in `font_names`
/// but which is itself absent from `font_names`: siblings with
/// inconsistent coverage.  A name outside the classifier table is a fatal
/// taxonomy gap and is excluded by the precondition.
pub fn missing_variants(font_names: &[String]) -> (r: Vec<String>)
    requires
        all_known(views_of(font_names@)),
    ensures
        views_of(r@) == spec_missing_variants(views_of(font_names@)),
{
    let av = all_variants();
    let mut r: Vec<String> = Vec::new();
    let mut i: usize = 0;
    proof {
        assert(views_of(r@) =~= spec_missing_from(views_of(font_names@), spec_all_variants().take(0)));
    }
    while i < av.len()
        invariant
            i <= av@.len(),
            av@.len() == spec_all_variants().len(),
            forall|k: int| 0 <= k < av@.len() ==> av@[k]@ == spec_all_variants()[k],
            views_of(r@) == spec_missing_from(
                views_of(font_names@),
                spec_all_variants().take(i as int),
            ),
        decreases av@.len() - i,
    {
        let ghost pre = views_of(r@);
        let hit = any_same_nonneutral_script(font_names, av[i].as_str()) && !names_contain(
            font_names,
            av[i].as_str(),
        );
        proof {
            assert(spec_all_variants().take(i as int + 1).drop_last() =~= spec_all_variants().take(
                i as int,
            ));
            assert(spec_all_variants().take(i as int + 1).last() == av@[i as int]@);
            assert(hit == is_missing_sibling(views_of(font_names@), av@[i as int]@));
            assert(spec_missing_from(views_of(font_names@), spec_all_variants().take(i as int + 1))
                == if hit {
                pre.push(av@[i as int]@)
            } else {
                pre
            });
        }
        if hit {
            r.push(av[i].clone());
            proof {
                assert(views_of(r@) =~= pre.push(av@[i as int]@));
            }
        }
        i += 1;
    }
    proof {
        assert(spec_all_variants().take(i as int) =~= spec_all_variants());
    }
    r
}

} // verus!
