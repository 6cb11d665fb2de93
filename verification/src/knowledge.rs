//! Importing a knowledge bank: the concept tables of each source type, the
//! requests that create concepts and their prerequisite links, and the
//! progress reports.

use vstd::prelude::*;
use crate::json::{Json, JsonV, JsonNumber, NumberV, spec_get, opt_str, object1, object2, object3, string_value};
use crate::text::{str_eq, chars_of, str_contains, contains_seq};

verus! {

/// The JLPT N5 vocabulary imported for a structured list: term, reading, meaning.
pub open spec fn vocab_table() -> Seq<(Seq<char>, Seq<char>, Seq<char>)> {
    seq![
        ("食べる"@, "taberu"@, "to eat"@),
        ("飲む"@, "nomu"@, "to drink"@),
        ("行く"@, "iku"@, "to go"@),
        ("来る"@, "kuru"@, "to come"@),
        ("見る"@, "miru"@, "to see"@),
        ("聞く"@, "kiku"@, "to hear/ask"@),
        ("読む"@, "yomu"@, "to read"@),
        ("書く"@, "kaku"@, "to write"@),
        ("話す"@, "hanasu"@, "to speak"@),
        ("買う"@, "kau"@, "to buy"@),
        ("大きい"@, "ookii"@, "big"@),
        ("小さい"@, "chiisai"@, "small"@),
        ("新しい"@, "atarashii"@, "new"@),
        ("古い"@, "furui"@, "old"@),
        ("高い"@, "takai"@, "tall/expensive"@),
        ("安い"@, "yasui"@, "cheap"@),
        ("良い"@, "yoi"@, "good"@),
        ("悪い"@, "warui"@, "bad"@),
        ("多い"@, "ooi"@, "many"@),
        ("少ない"@, "sukunai"@, "few"@),
        ("学校"@, "gakkou"@, "school"@),
        ("先生"@, "sensei"@, "teacher"@),
        ("学生"@, "gakusei"@, "student"@),
        ("友達"@, "tomodachi"@, "friend"@),
        ("家族"@, "kazoku"@, "family"@),
        ("父"@, "chichi"@, "father"@),
        ("母"@, "haha"@, "mother"@),
        ("兄"@, "ani"@, "older brother"@),
        ("姉"@, "ane"@, "older sister"@),
        ("弟"@, "otouto"@, "younger brother"@),
        ("妹"@, "imouto"@, "younger sister"@),
        ("水"@, "mizu"@, "water"@),
        ("お茶"@, "ocha"@, "tea"@),
        ("朝"@, "asa"@, "morning"@),
        ("昼"@, "hiru"@, "noon"@),
        ("夜"@, "yoru"@, "night"@),
        ("今日"@, "kyou"@, "today"@),
        ("明日"@, "ashita"@, "tomorrow"@),
        ("昨日"@, "kinou"@, "yesterday"@),
        ("時間"@, "jikan"@, "time"@),
        ("電車"@, "densha"@, "train"@),
        ("車"@, "kuruma"@, "car"@),
        ("道"@, "michi"@, "road"@),
        ("駅"@, "eki"@, "station"@),
        ("病院"@, "byouin"@, "hospital"@),
        ("銀行"@, "ginkou"@, "bank"@),
        ("本"@, "hon"@, "book"@),
        ("映画"@, "eiga"@, "movie"@),
        ("音楽"@, "ongaku"@, "music"@),
        ("天気"@, "tenki"@, "weather"@),
    ]
}

/// The JLPT N5 vocabulary items.
pub fn n5_vocab_items() -> (res: Vec<(&'static str, &'static str, &'static str)>)
    ensures
        res@.map_values(|t: (&'static str, &'static str, &'static str)| (t.0@, t.1@, t.2@)) == vocab_table(),
{
    let items: Vec<(&'static str, &'static str, &'static str)> = vec![
        ("食べる", "taberu", "to eat"),
        ("飲む", "nomu", "to drink"),
        ("行く", "iku", "to go"),
        ("来る", "kuru", "to come"),
        ("見る", "miru", "to see"),
        ("聞く", "kiku", "to hear/ask"),
        ("読む", "yomu", "to read"),
        ("書く", "kaku", "to write"),
        ("話す", "hanasu", "to speak"),
        ("買う", "kau", "to buy"),
        ("大きい", "ookii", "big"),
        ("小さい", "chiisai", "small"),
        ("新しい", "atarashii", "new"),
        ("古い", "furui", "old"),
        ("高い", "takai", "tall/expensive"),
        ("安い", "yasui", "cheap"),
        ("良い", "yoi", "good"),
        ("悪い", "warui", "bad"),
        ("多い", "ooi", "many"),
        ("少ない", "sukunai", "few"),
        ("学校", "gakkou", "school"),
        ("先生", "sensei", "teacher"),
        ("学生", "gakusei", "student"),
        ("友達", "tomodachi", "friend"),
        ("家族", "kazoku", "family"),
        ("父", "chichi", "father"),
        ("母", "haha", "mother"),
        ("兄", "ani", "older brother"),
        ("姉", "ane", "older sister"),
        ("弟", "otouto", "younger brother"),
        ("妹", "imouto", "younger sister"),
        ("水", "mizu", "water"),
        ("お茶", "ocha", "tea"),
        ("朝", "asa", "morning"),
        ("昼", "hiru", "noon"),
        ("夜", "yoru", "night"),
        ("今日", "kyou", "today"),
        ("明日", "ashita", "tomorrow"),
        ("昨日", "kinou", "yesterday"),
        ("時間", "jikan", "time"),
        ("電車", "densha", "train"),
        ("車", "kuruma", "car"),
        ("道", "michi", "road"),
        ("駅", "eki", "station"),
        ("病院", "byouin", "hospital"),
        ("銀行", "ginkou", "bank"),
        ("本", "hon", "book"),
        ("映画", "eiga", "movie"),
        ("音楽", "ongaku", "music"),
        ("天気", "tenki", "weather"),
    ];
    assert(items@.map_values(|t: (&'static str, &'static str, &'static str)| (t.0@, t.1@, t.2@)) =~= vocab_table());
    items
}

/// Field `f` (0 term, 1 reading, 2 meaning) of a vocabulary item.
pub open spec fn item_field(t: (Seq<char>, Seq<char>, Seq<char>), f: int) -> Seq<char> {
    if f == 0 {
        t.0
    } else if f == 1 {
        t.1
    } else {
        t.2
    }
}

/// The character at `i` as a number, or -1 past the end.
pub open spec fn char_code(s: Seq<char>, i: int) -> int {
    if i < s.len() {
        s[i] as int
    } else {
        -1
    }
}

/// A text's length and its first four characters: equal texts have equal
/// prints.
pub open spec fn text_print(s: Seq<char>) -> (int, int, int, int, int) {
    (s.len() as int, char_code(s, 0), char_code(s, 1), char_code(s, 2), char_code(s, 3))
}

/// Field `f` of none of the first `n` items of `s` has the print `x`.
pub open spec fn print_absent(s: Seq<(Seq<char>, Seq<char>, Seq<char>)>, n: int, x: (int, int, int, int, int), f: int) -> bool
    decreases n,
{
    n <= 0 || (text_print(item_field(s[n - 1], f)) != x && print_absent(s, n - 1, x, f))
}

/// No two of the first `n` items of `s` have fields `f` with the same print.
pub open spec fn prints_distinct(s: Seq<(Seq<char>, Seq<char>, Seq<char>)>, n: int, f: int) -> bool
    decreases n,
{
    n <= 0 || (print_absent(s, n - 1, text_print(item_field(s[n - 1], f)), f) && prints_distinct(s, n - 1, f))
}

proof fn lemma_print_absent(s: Seq<(Seq<char>, Seq<char>, Seq<char>)>, n: int, x: (int, int, int, int, int), f: int)
    requires
        print_absent(s, n, x, f),
    ensures
        forall|i: int| 0 <= i < n ==> text_print(item_field(#[trigger] s[i], f)) != x,
    decreases n,
{
    if n > 0 {
        lemma_print_absent(s, n - 1, x, f);
    }
}

/// Distinct prints mean distinct fields.
proof fn lemma_fields_distinct(s: Seq<(Seq<char>, Seq<char>, Seq<char>)>, n: int, f: int)
    requires
        prints_distinct(s, n, f),
    ensures
        forall|i: int, j: int| 0 <= i < j < n ==> item_field(#[trigger] s[i], f) != item_field(#[trigger] s[j], f),
    decreases n,
{
    if n > 0 {
        lemma_fields_distinct(s, n - 1, f);
        lemma_print_absent(s, n - 1, text_print(item_field(s[n - 1], f)), f);
    }
}

/// The terms of the N5 vocabulary have pairwise different prints.
#[verifier::rlimit(100)]
#[verifier::spinoff_prover]
proof fn lemma_vocab_terms_printed()
    ensures
        prints_distinct(vocab_table(), 50, 0),
{
    let t = vocab_table();
    reveal_strlit("食べる");
    reveal_strlit("飲む");
    reveal_strlit("行く");
    reveal_strlit("来る");
    reveal_strlit("見る");
    reveal_strlit("聞く");
    reveal_strlit("読む");
    reveal_strlit("書く");
    reveal_strlit("話す");
    reveal_strlit("買う");
    reveal_strlit("大きい");
    reveal_strlit("小さい");
    reveal_strlit("新しい");
    reveal_strlit("古い");
    reveal_strlit("高い");
    reveal_strlit("安い");
    reveal_strlit("良い");
    reveal_strlit("悪い");
    reveal_strlit("多い");
    reveal_strlit("少ない");
    reveal_strlit("学校");
    reveal_strlit("先生");
    reveal_strlit("学生");
    reveal_strlit("友達");
    reveal_strlit("家族");
    reveal_strlit("父");
    reveal_strlit("母");
    reveal_strlit("兄");
    reveal_strlit("姉");
    reveal_strlit("弟");
    reveal_strlit("妹");
    reveal_strlit("水");
    reveal_strlit("お茶");
    reveal_strlit("朝");
    reveal_strlit("昼");
    reveal_strlit("夜");
    reveal_strlit("今日");
    reveal_strlit("明日");
    reveal_strlit("昨日");
    reveal_strlit("時間");
    reveal_strlit("電車");
    reveal_strlit("車");
    reveal_strlit("道");
    reveal_strlit("駅");
    reveal_strlit("病院");
    reveal_strlit("銀行");
    reveal_strlit("本");
    reveal_strlit("映画");
    reveal_strlit("音楽");
    reveal_strlit("天気");
    assert(t.len() == 50);
    assert(t[0].0 == "食べる"@);
    assert(t[1].0 == "飲む"@);
    assert(t[2].0 == "行く"@);
    assert(t[3].0 == "来る"@);
    assert(t[4].0 == "見る"@);
    assert(t[5].0 == "聞く"@);
    assert(t[6].0 == "読む"@);
    assert(t[7].0 == "書く"@);
    assert(t[8].0 == "話す"@);
    assert(t[9].0 == "買う"@);
    assert(t[10].0 == "大きい"@);
    assert(t[11].0 == "小さい"@);
    assert(t[12].0 == "新しい"@);
    assert(t[13].0 == "古い"@);
    assert(t[14].0 == "高い"@);
    assert(t[15].0 == "安い"@);
    assert(t[16].0 == "良い"@);
    assert(t[17].0 == "悪い"@);
    assert(t[18].0 == "多い"@);
    assert(t[19].0 == "少ない"@);
    assert(t[20].0 == "学校"@);
    assert(t[21].0 == "先生"@);
    assert(t[22].0 == "学生"@);
    assert(t[23].0 == "友達"@);
    assert(t[24].0 == "家族"@);
    assert(t[25].0 == "父"@);
    assert(t[26].0 == "母"@);
    assert(t[27].0 == "兄"@);
    assert(t[28].0 == "姉"@);
    assert(t[29].0 == "弟"@);
    assert(t[30].0 == "妹"@);
    assert(t[31].0 == "水"@);
    assert(t[32].0 == "お茶"@);
    assert(t[33].0 == "朝"@);
    assert(t[34].0 == "昼"@);
    assert(t[35].0 == "夜"@);
    assert(t[36].0 == "今日"@);
    assert(t[37].0 == "明日"@);
    assert(t[38].0 == "昨日"@);
    assert(t[39].0 == "時間"@);
    assert(t[40].0 == "電車"@);
    assert(t[41].0 == "車"@);
    assert(t[42].0 == "道"@);
    assert(t[43].0 == "駅"@);
    assert(t[44].0 == "病院"@);
    assert(t[45].0 == "銀行"@);
    assert(t[46].0 == "本"@);
    assert(t[47].0 == "映画"@);
    assert(t[48].0 == "音楽"@);
    assert(t[49].0 == "天気"@);
    reveal_with_fuel(prints_distinct, 51);
    reveal_with_fuel(print_absent, 51);
    assert(prints_distinct(t, 17, 0));
    assert(prints_distinct(t, 34, 0));
}

/// The readings of the N5 vocabulary have pairwise different prints.
#[verifier::rlimit(100)]
#[verifier::spinoff_prover]
proof fn lemma_vocab_readings_printed()
    ensures
        prints_distinct(vocab_table(), 50, 1),
{
    let t = vocab_table();
    reveal_strlit("taberu");
    reveal_strlit("nomu");
    reveal_strlit("iku");
    reveal_strlit("kuru");
    reveal_strlit("miru");
    reveal_strlit("kiku");
    reveal_strlit("yomu");
    reveal_strlit("kaku");
    reveal_strlit("hanasu");
    reveal_strlit("kau");
    reveal_strlit("ookii");
    reveal_strlit("chiisai");
    reveal_strlit("atarashii");
    reveal_strlit("furui");
    reveal_strlit("takai");
    reveal_strlit("yasui");
    reveal_strlit("yoi");
    reveal_strlit("warui");
    reveal_strlit("ooi");
    reveal_strlit("sukunai");
    reveal_strlit("gakkou");
    reveal_strlit("sensei");
    reveal_strlit("gakusei");
    reveal_strlit("tomodachi");
    reveal_strlit("kazoku");
    reveal_strlit("chichi");
    reveal_strlit("haha");
    reveal_strlit("ani");
    reveal_strlit("ane");
    reveal_strlit("otouto");
    reveal_strlit("imouto");
    reveal_strlit("mizu");
    reveal_strlit("ocha");
    reveal_strlit("asa");
    reveal_strlit("hiru");
    reveal_strlit("yoru");
    reveal_strlit("kyou");
    reveal_strlit("ashita");
    reveal_strlit("kinou");
    reveal_strlit("jikan");
    reveal_strlit("densha");
    reveal_strlit("kuruma");
    reveal_strlit("michi");
    reveal_strlit("eki");
    reveal_strlit("byouin");
    reveal_strlit("ginkou");
    reveal_strlit("hon");
    reveal_strlit("eiga");
    reveal_strlit("ongaku");
    reveal_strlit("tenki");
    assert(t.len() == 50);
    assert(t[0].1 == "taberu"@);
    assert(t[1].1 == "nomu"@);
    assert(t[2].1 == "iku"@);
    assert(t[3].1 == "kuru"@);
    assert(t[4].1 == "miru"@);
    assert(t[5].1 == "kiku"@);
    assert(t[6].1 == "yomu"@);
    assert(t[7].1 == "kaku"@);
    assert(t[8].1 == "hanasu"@);
    assert(t[9].1 == "kau"@);
    assert(t[10].1 == "ookii"@);
    assert(t[11].1 == "chiisai"@);
    assert(t[12].1 == "atarashii"@);
    assert(t[13].1 == "furui"@);
    assert(t[14].1 == "takai"@);
    assert(t[15].1 == "yasui"@);
    assert(t[16].1 == "yoi"@);
    assert(t[17].1 == "warui"@);
    assert(t[18].1 == "ooi"@);
    assert(t[19].1 == "sukunai"@);
    assert(t[20].1 == "gakkou"@);
    assert(t[21].1 == "sensei"@);
    assert(t[22].1 == "gakusei"@);
    assert(t[23].1 == "tomodachi"@);
    assert(t[24].1 == "kazoku"@);
    assert(t[25].1 == "chichi"@);
    assert(t[26].1 == "haha"@);
    assert(t[27].1 == "ani"@);
    assert(t[28].1 == "ane"@);
    assert(t[29].1 == "otouto"@);
    assert(t[30].1 == "imouto"@);
    assert(t[31].1 == "mizu"@);
    assert(t[32].1 == "ocha"@);
    assert(t[33].1 == "asa"@);
    assert(t[34].1 == "hiru"@);
    assert(t[35].1 == "yoru"@);
    assert(t[36].1 == "kyou"@);
    assert(t[37].1 == "ashita"@);
    assert(t[38].1 == "kinou"@);
    assert(t[39].1 == "jikan"@);
    assert(t[40].1 == "densha"@);
    assert(t[41].1 == "kuruma"@);
    assert(t[42].1 == "michi"@);
    assert(t[43].1 == "eki"@);
    assert(t[44].1 == "byouin"@);
    assert(t[45].1 == "ginkou"@);
    assert(t[46].1 == "hon"@);
    assert(t[47].1 == "eiga"@);
    assert(t[48].1 == "ongaku"@);
    assert(t[49].1 == "tenki"@);
    reveal_with_fuel(prints_distinct, 51);
    reveal_with_fuel(print_absent, 51);
    assert(prints_distinct(t, 17, 1));
    assert(prints_distinct(t, 34, 1));
}

/// The meanings of the N5 vocabulary have pairwise different prints.
#[verifier::rlimit(100)]
#[verifier::spinoff_prover]
proof fn lemma_vocab_meanings_printed()
    ensures
        prints_distinct(vocab_table(), 50, 2),
{
    let t = vocab_table();
    reveal_strlit("to eat");
    reveal_strlit("to drink");
    reveal_strlit("to go");
    reveal_strlit("to come");
    reveal_strlit("to see");
    reveal_strlit("to hear/ask");
    reveal_strlit("to read");
    reveal_strlit("to write");
    reveal_strlit("to speak");
    reveal_strlit("to buy");
    reveal_strlit("big");
    reveal_strlit("small");
    reveal_strlit("new");
    reveal_strlit("old");
    reveal_strlit("tall/expensive");
    reveal_strlit("cheap");
    reveal_strlit("good");
    reveal_strlit("bad");
    reveal_strlit("many");
    reveal_strlit("few");
    reveal_strlit("school");
    reveal_strlit("teacher");
    reveal_strlit("student");
    reveal_strlit("friend");
    reveal_strlit("family");
    reveal_strlit("father");
    reveal_strlit("mother");
    reveal_strlit("older brother");
    reveal_strlit("older sister");
    reveal_strlit("younger brother");
    reveal_strlit("younger sister");
    reveal_strlit("water");
    reveal_strlit("tea");
    reveal_strlit("morning");
    reveal_strlit("noon");
    reveal_strlit("night");
    reveal_strlit("today");
    reveal_strlit("tomorrow");
    reveal_strlit("yesterday");
    reveal_strlit("time");
    reveal_strlit("train");
    reveal_strlit("car");
    reveal_strlit("road");
    reveal_strlit("station");
    reveal_strlit("hospital");
    reveal_strlit("bank");
    reveal_strlit("book");
    reveal_strlit("movie");
    reveal_strlit("music");
    reveal_strlit("weather");
    assert(t.len() == 50);
    assert(t[0].2 == "to eat"@);
    assert(t[1].2 == "to drink"@);
    assert(t[2].2 == "to go"@);
    assert(t[3].2 == "to come"@);
    assert(t[4].2 == "to see"@);
    assert(t[5].2 == "to hear/ask"@);
    assert(t[6].2 == "to read"@);
    assert(t[7].2 == "to write"@);
    assert(t[8].2 == "to speak"@);
    assert(t[9].2 == "to buy"@);
    assert(t[10].2 == "big"@);
    assert(t[11].2 == "small"@);
    assert(t[12].2 == "new"@);
    assert(t[13].2 == "old"@);
    assert(t[14].2 == "tall/expensive"@);
    assert(t[15].2 == "cheap"@);
    assert(t[16].2 == "good"@);
    assert(t[17].2 == "bad"@);
    assert(t[18].2 == "many"@);
    assert(t[19].2 == "few"@);
    assert(t[20].2 == "school"@);
    assert(t[21].2 == "teacher"@);
    assert(t[22].2 == "student"@);
    assert(t[23].2 == "friend"@);
    assert(t[24].2 == "family"@);
    assert(t[25].2 == "father"@);
    assert(t[26].2 == "mother"@);
    assert(t[27].2 == "older brother"@);
    assert(t[28].2 == "older sister"@);
    assert(t[29].2 == "younger brother"@);
    assert(t[30].2 == "younger sister"@);
    assert(t[31].2 == "water"@);
    assert(t[32].2 == "tea"@);
    assert(t[33].2 == "morning"@);
    assert(t[34].2 == "noon"@);
    assert(t[35].2 == "night"@);
    assert(t[36].2 == "today"@);
    assert(t[37].2 == "tomorrow"@);
    assert(t[38].2 == "yesterday"@);
    assert(t[39].2 == "time"@);
    assert(t[40].2 == "train"@);
    assert(t[41].2 == "car"@);
    assert(t[42].2 == "road"@);
    assert(t[43].2 == "station"@);
    assert(t[44].2 == "hospital"@);
    assert(t[45].2 == "bank"@);
    assert(t[46].2 == "book"@);
    assert(t[47].2 == "movie"@);
    assert(t[48].2 == "music"@);
    assert(t[49].2 == "weather"@);
    reveal_with_fuel(prints_distinct, 51);
    reveal_with_fuel(print_absent, 51);
    assert(prints_distinct(t, 17, 2));
    assert(prints_distinct(t, 34, 2));
}

/// The N5 vocabulary lists each term once, and no two of its terms share a
/// reading or a meaning: every term keeps its own reading and meaning.
pub proof fn law_vocab_items_distinct()
    ensures
        forall|i: int, j: int|
            0 <= i < j < vocab_table().len() ==> {
                &&& (#[trigger] vocab_table()[i]).0 != (#[trigger] vocab_table()[j]).0
                &&& vocab_table()[i].1 != vocab_table()[j].1
                &&& vocab_table()[i].2 != vocab_table()[j].2
            },
{
    let t = vocab_table();
    assert(t.len() == 50);
    lemma_vocab_terms_printed();
    lemma_vocab_readings_printed();
    lemma_vocab_meanings_printed();
    lemma_fields_distinct(t, 50, 0);
    lemma_fields_distinct(t, 50, 1);
    lemma_fields_distinct(t, 50, 2);
    assert forall|i: int, j: int| 0 <= i < j < t.len() implies {
        &&& (#[trigger] t[i]).0 != (#[trigger] t[j]).0
        &&& t[i].1 != t[j].1
        &&& t[i].2 != t[j].2
    } by {
        assert(item_field(t[i], 0) != item_field(t[j], 0));
        assert(item_field(t[i], 1) != item_field(t[j], 1));
        assert(item_field(t[i], 2) != item_field(t[j], 2));
    }
}

/// The basic kanji imported for a kanji list: character, reading, meaning.
pub open spec fn kanji_table() -> Seq<(Seq<char>, Seq<char>, Seq<char>)> {
    seq![
        ("一"@, "ichi"@, "one"@),
        ("二"@, "ni"@, "two"@),
        ("三"@, "san"@, "three"@),
        ("四"@, "shi/yon"@, "four"@),
        ("五"@, "go"@, "five"@),
        ("六"@, "roku"@, "six"@),
        ("七"@, "shichi/nana"@, "seven"@),
        ("八"@, "hachi"@, "eight"@),
        ("九"@, "ku/kyuu"@, "nine"@),
        ("十"@, "juu"@, "ten"@),
        ("日"@, "nichi/hi"@, "day/sun"@),
        ("月"@, "getsu/tsuki"@, "month/moon"@),
        ("火"@, "ka/hi"@, "fire"@),
        ("水"@, "sui/mizu"@, "water"@),
        ("木"@, "moku/ki"@, "tree"@),
        ("金"@, "kin/kane"@, "gold/money"@),
        ("土"@, "do/tsuchi"@, "earth"@),
        ("人"@, "jin/hito"@, "person"@),
        ("大"@, "dai/ookii"@, "big"@),
        ("小"@, "shou/chiisai"@, "small"@),
    ]
}

/// The basic kanji items.
pub fn basic_kanji_items() -> (res: Vec<(&'static str, &'static str, &'static str)>)
    ensures
        res@.map_values(|t: (&'static str, &'static str, &'static str)| (t.0@, t.1@, t.2@)) == kanji_table(),
{
    let items: Vec<(&'static str, &'static str, &'static str)> = vec![
        ("一", "ichi", "one"),
        ("二", "ni", "two"),
        ("三", "san", "three"),
        ("四", "shi/yon", "four"),
        ("五", "go", "five"),
        ("六", "roku", "six"),
        ("七", "shichi/nana", "seven"),
        ("八", "hachi", "eight"),
        ("九", "ku/kyuu", "nine"),
        ("十", "juu", "ten"),
        ("日", "nichi/hi", "day/sun"),
        ("月", "getsu/tsuki", "month/moon"),
        ("火", "ka/hi", "fire"),
        ("水", "sui/mizu", "water"),
        ("木", "moku/ki", "tree"),
        ("金", "kin/kane", "gold/money"),
        ("土", "do/tsuchi", "earth"),
        ("人", "jin/hito", "person"),
        ("大", "dai/ookii", "big"),
        ("小", "shou/chiisai", "small"),
    ];
    assert(items@.map_values(|t: (&'static str, &'static str, &'static str)| (t.0@, t.1@, t.2@)) =~= kanji_table());
    items
}

/// The N5 grammar points imported for a grammar inventory: pattern, description, order.
pub open spec fn grammar_table() -> Seq<(Seq<char>, Seq<char>, u32)> {
    seq![
        ("です"@, "Polite copula (is/am/are)"@, 1u32),
        ("ます"@, "Polite verb ending"@, 2u32),
        ("は (topic)"@, "Topic marker particle"@, 3u32),
        ("が (subject)"@, "Subject marker particle"@, 4u32),
        ("を (object)"@, "Object marker particle"@, 5u32),
        ("に (target)"@, "Target/direction particle"@, 6u32),
        ("で (means)"@, "Means/location particle"@, 7u32),
        ("と (and/with)"@, "Conjunction/companion particle"@, 8u32),
        ("も (also)"@, "Inclusive particle"@, 9u32),
        ("から (from)"@, "Starting point particle"@, 10u32),
        ("まで (until)"@, "Endpoint particle"@, 11u32),
        ("て form"@, "Verb connective form"@, 12u32),
        ("ている"@, "Ongoing state/action"@, 13u32),
        ("たい"@, "Want to (desire)"@, 14u32),
        ("ない (negation)"@, "Negative form"@, 15u32),
    ]
}

/// The characters of the basic kanji have pairwise different prints.
#[verifier::rlimit(100)]
#[verifier::spinoff_prover]
proof fn lemma_kanji_characters_printed()
    ensures
        prints_distinct(kanji_table(), 20, 0),
{
    let t = kanji_table();
    reveal_strlit("一");
    reveal_strlit("二");
    reveal_strlit("三");
    reveal_strlit("四");
    reveal_strlit("五");
    reveal_strlit("六");
    reveal_strlit("七");
    reveal_strlit("八");
    reveal_strlit("九");
    reveal_strlit("十");
    reveal_strlit("日");
    reveal_strlit("月");
    reveal_strlit("火");
    reveal_strlit("水");
    reveal_strlit("木");
    reveal_strlit("金");
    reveal_strlit("土");
    reveal_strlit("人");
    reveal_strlit("大");
    reveal_strlit("小");
    assert(t.len() == 20);
    assert(t[0].0 == "一"@);
    assert(t[1].0 == "二"@);
    assert(t[2].0 == "三"@);
    assert(t[3].0 == "四"@);
    assert(t[4].0 == "五"@);
    assert(t[5].0 == "六"@);
    assert(t[6].0 == "七"@);
    assert(t[7].0 == "八"@);
    assert(t[8].0 == "九"@);
    assert(t[9].0 == "十"@);
    assert(t[10].0 == "日"@);
    assert(t[11].0 == "月"@);
    assert(t[12].0 == "火"@);
    assert(t[13].0 == "水"@);
    assert(t[14].0 == "木"@);
    assert(t[15].0 == "金"@);
    assert(t[16].0 == "土"@);
    assert(t[17].0 == "人"@);
    assert(t[18].0 == "大"@);
    assert(t[19].0 == "小"@);
    reveal_with_fuel(prints_distinct, 21);
    reveal_with_fuel(print_absent, 21);
    assert(prints_distinct(t, 10, 0));
}

/// The readings of the basic kanji have pairwise different prints.
#[verifier::rlimit(100)]
#[verifier::spinoff_prover]
proof fn lemma_kanji_readings_printed()
    ensures
        prints_distinct(kanji_table(), 20, 1),
{
    let t = kanji_table();
    reveal_strlit("ichi");
    reveal_strlit("ni");
    reveal_strlit("san");
    reveal_strlit("shi/yon");
    reveal_strlit("go");
    reveal_strlit("roku");
    reveal_strlit("shichi/nana");
    reveal_strlit("hachi");
    reveal_strlit("ku/kyuu");
    reveal_strlit("juu");
    reveal_strlit("nichi/hi");
    reveal_strlit("getsu/tsuki");
    reveal_strlit("ka/hi");
    reveal_strlit("sui/mizu");
    reveal_strlit("moku/ki");
    reveal_strlit("kin/kane");
    reveal_strlit("do/tsuchi");
    reveal_strlit("jin/hito");
    reveal_strlit("dai/ookii");
    reveal_strlit("shou/chiisai");
    assert(t.len() == 20);
    assert(t[0].1 == "ichi"@);
    assert(t[1].1 == "ni"@);
    assert(t[2].1 == "san"@);
    assert(t[3].1 == "shi/yon"@);
    assert(t[4].1 == "go"@);
    assert(t[5].1 == "roku"@);
    assert(t[6].1 == "shichi/nana"@);
    assert(t[7].1 == "hachi"@);
    assert(t[8].1 == "ku/kyuu"@);
    assert(t[9].1 == "juu"@);
    assert(t[10].1 == "nichi/hi"@);
    assert(t[11].1 == "getsu/tsuki"@);
    assert(t[12].1 == "ka/hi"@);
    assert(t[13].1 == "sui/mizu"@);
    assert(t[14].1 == "moku/ki"@);
    assert(t[15].1 == "kin/kane"@);
    assert(t[16].1 == "do/tsuchi"@);
    assert(t[17].1 == "jin/hito"@);
    assert(t[18].1 == "dai/ookii"@);
    assert(t[19].1 == "shou/chiisai"@);
    reveal_with_fuel(prints_distinct, 21);
    reveal_with_fuel(print_absent, 21);
    assert(prints_distinct(t, 10, 1));
}

/// The meanings of the basic kanji have pairwise different prints.
#[verifier::rlimit(100)]
#[verifier::spinoff_prover]
proof fn lemma_kanji_meanings_printed()
    ensures
        prints_distinct(kanji_table(), 20, 2),
{
    let t = kanji_table();
    reveal_strlit("one");
    reveal_strlit("two");
    reveal_strlit("three");
    reveal_strlit("four");
    reveal_strlit("five");
    reveal_strlit("six");
    reveal_strlit("seven");
    reveal_strlit("eight");
    reveal_strlit("nine");
    reveal_strlit("ten");
    reveal_strlit("day/sun");
    reveal_strlit("month/moon");
    reveal_strlit("fire");
    reveal_strlit("water");
    reveal_strlit("tree");
    reveal_strlit("gold/money");
    reveal_strlit("earth");
    reveal_strlit("person");
    reveal_strlit("big");
    reveal_strlit("small");
    assert(t.len() == 20);
    assert(t[0].2 == "one"@);
    assert(t[1].2 == "two"@);
    assert(t[2].2 == "three"@);
    assert(t[3].2 == "four"@);
    assert(t[4].2 == "five"@);
    assert(t[5].2 == "six"@);
    assert(t[6].2 == "seven"@);
    assert(t[7].2 == "eight"@);
    assert(t[8].2 == "nine"@);
    assert(t[9].2 == "ten"@);
    assert(t[10].2 == "day/sun"@);
    assert(t[11].2 == "month/moon"@);
    assert(t[12].2 == "fire"@);
    assert(t[13].2 == "water"@);
    assert(t[14].2 == "tree"@);
    assert(t[15].2 == "gold/money"@);
    assert(t[16].2 == "earth"@);
    assert(t[17].2 == "person"@);
    assert(t[18].2 == "big"@);
    assert(t[19].2 == "small"@);
    reveal_with_fuel(prints_distinct, 21);
    reveal_with_fuel(print_absent, 21);
    assert(prints_distinct(t, 10, 2));
}

/// The basic kanji list each character once, and no two of its characters
/// share a reading or a meaning.
pub proof fn law_kanji_items_distinct()
    ensures
        forall|i: int, j: int|
            0 <= i < j < kanji_table().len() ==> {
                &&& (#[trigger] kanji_table()[i]).0 != (#[trigger] kanji_table()[j]).0
                &&& kanji_table()[i].1 != kanji_table()[j].1
                &&& kanji_table()[i].2 != kanji_table()[j].2
            },
{
    let t = kanji_table();
    assert(t.len() == 20);
    lemma_kanji_characters_printed();
    lemma_kanji_readings_printed();
    lemma_kanji_meanings_printed();
    lemma_fields_distinct(t, 20, 0);
    lemma_fields_distinct(t, 20, 1);
    lemma_fields_distinct(t, 20, 2);
    assert forall|i: int, j: int| 0 <= i < j < t.len() implies {
        &&& (#[trigger] t[i]).0 != (#[trigger] t[j]).0
        &&& t[i].1 != t[j].1
        &&& t[i].2 != t[j].2
    } by {
        assert(item_field(t[i], 0) != item_field(t[j], 0));
        assert(item_field(t[i], 1) != item_field(t[j], 1));
        assert(item_field(t[i], 2) != item_field(t[j], 2));
    }
}

/// Whether the first `n` grammar points carry the orders 1 to `n`.
pub open spec fn orders_sequential(s: Seq<(Seq<char>, Seq<char>, u32)>, n: int) -> bool
    decreases n,
{
    n <= 0 || (s[n - 1].2 == n && orders_sequential(s, n - 1))
}

proof fn lemma_orders_sequential(s: Seq<(Seq<char>, Seq<char>, u32)>, n: int)
    requires
        orders_sequential(s, n),
    ensures
        forall|i: int| 0 <= i < n ==> (#[trigger] s[i]).2 == i + 1,
    decreases n,
{
    if n > 0 {
        lemma_orders_sequential(s, n - 1);
    }
}

/// The N5 grammar points are ordered 1, 2, 3, ... in the order they are
/// listed.
pub proof fn law_grammar_orders_follow_the_list()
    ensures
        forall|i: int| 0 <= i < grammar_table().len() ==> (#[trigger] grammar_table()[i]).2 == i + 1,
{
    let t = grammar_table();
    assert(t.len() == 15);
    assert(orders_sequential(t, 15)) by {
        reveal_with_fuel(orders_sequential, 16);
    }
    lemma_orders_sequential(t, 15);
}

/// The N5 grammar points.
pub fn n5_grammar_items() -> (res: Vec<(&'static str, &'static str, u32)>)
    ensures
        res@.map_values(|t: (&'static str, &'static str, u32)| (t.0@, t.1@, t.2)) == grammar_table(),
{
    let items: Vec<(&'static str, &'static str, u32)> = vec![
        ("です", "Polite copula (is/am/are)", 1),
        ("ます", "Polite verb ending", 2),
        ("は (topic)", "Topic marker particle", 3),
        ("が (subject)", "Subject marker particle", 4),
        ("を (object)", "Object marker particle", 5),
        ("に (target)", "Target/direction particle", 6),
        ("で (means)", "Means/location particle", 7),
        ("と (and/with)", "Conjunction/companion particle", 8),
        ("も (also)", "Inclusive particle", 9),
        ("から (from)", "Starting point particle", 10),
        ("まで (until)", "Endpoint particle", 11),
        ("て form", "Verb connective form", 12),
        ("ている", "Ongoing state/action", 13),
        ("たい", "Want to (desire)", 14),
        ("ない (negation)", "Negative form", 15),
    ];
    assert(items@.map_values(|t: (&'static str, &'static str, u32)| (t.0@, t.1@, t.2)) =~= grammar_table());
    items
}

/// The difficulty band of a JLPT level; unknown levels count as beginner.
pub open spec fn spec_difficulty_band(level: Seq<char>) -> Seq<char> {
    if level == "N5"@ {
        "beginner"@
    } else if level == "N4"@ {
        "elementary"@
    } else if level == "N3"@ {
        "intermediate"@
    } else if level == "N2"@ {
        "upper_intermediate"@
    } else if level == "N1"@ {
        "advanced"@
    } else {
        "beginner"@
    }
}

/// The difficulty band of a JLPT level.
pub fn difficulty_band(level: &str) -> (res: &'static str)
    ensures
        res@ == spec_difficulty_band(level@),
{
    if str_eq(level, "N5") {
        "beginner"
    } else if str_eq(level, "N4") {
        "elementary"
    } else if str_eq(level, "N3") {
        "intermediate"
    } else if str_eq(level, "N2") {
        "upper_intermediate"
    } else if str_eq(level, "N1") {
        "advanced"
    } else {
        "beginner"
    }
}

/// A source of concepts named in a knowledge bank's configuration.
#[derive(Debug, PartialEq, Eq)]
pub enum ConceptSource {
    /// The N5 vocabulary, tagged with a JLPT level.
    StructuredList { level: String },
    /// The basic kanji.
    KanjiList,
    /// The N5 grammar points, each a prerequisite of the next.
    GrammarInventory,
    /// A source type that is skipped.
    Unknown { source_type: String },
}

/// The source type of a configured source, `unknown` when it names none.
pub open spec fn spec_source_type(source: JsonV) -> Seq<char> {
    match opt_str(spec_get(source, "type"@)) {
        Some(t) => t,
        None => "unknown"@,
    }
}

/// What a configured source asks to import.
pub open spec fn spec_concept_source(source: JsonV, s: ConceptSource) -> bool {
    let t = spec_source_type(source);
    if t == "structured_list"@ {
        s matches ConceptSource::StructuredList { level } && level@ == match opt_str(spec_get(source, "level"@)) {
            Some(l) => l,
            None => "N5"@,
        }
    } else if t == "kanji_list"@ {
        s is KanjiList
    } else if t == "grammar_inventory"@ {
        s is GrammarInventory
    } else {
        s matches ConceptSource::Unknown { source_type } && source_type@ == t
    }
}

/// The source type a configured source names.
pub fn source_type(source: &Json) -> (res: String)
    ensures
        res@ == spec_source_type(source@),
{
    match source.get_str("type") {
        Some(t) => t.to_string(),
        None => "unknown".to_string(),
    }
}

/// Reads what a configured source asks to import.
pub fn concept_source(source: &Json) -> (res: ConceptSource)
    ensures
        spec_concept_source(source@, res),
{
    let t = source_type(source);
    if str_eq(t.as_str(), "structured_list") {
        let level = match source.get_str("level") {
            Some(l) => l.to_string(),
            None => "N5".to_string(),
        };
        ConceptSource::StructuredList { level }
    } else if str_eq(t.as_str(), "kanji_list") {
        ConceptSource::KanjiList
    } else if str_eq(t.as_str(), "grammar_inventory") {
        ConceptSource::GrammarInventory
    } else {
        ConceptSource::Unknown { source_type: t }
    }
}

/// A JSON string.
pub open spec fn js(s: Seq<char>) -> JsonV {
    JsonV::String(s)
}

/// The request body that creates a concept of a knowledge bank.
pub open spec fn spec_concept_body(
    domain: Seq<char>,
    concept_type: Seq<char>,
    label: Seq<char>,
    content: JsonV,
    band: Seq<char>,
    tags: Seq<Seq<char>>,
    bank_id: Seq<char>,
) -> JsonV {
    JsonV::Object(seq![("fields"@, JsonV::Object(seq![
        ("domain"@, js(domain)),
        ("concept_type"@, js(concept_type)),
        ("label"@, js(label)),
        ("content"@, content),
        ("difficulty_band"@, js(band)),
        ("tags"@, JsonV::Array(tags.map_values(|t: Seq<char>| js(t)))),
        ("knowledge_bank_id"@, js(bank_id)),
    ]))])
}

/// Builds the request body that creates a concept.
pub fn concept_body(
    domain: &str,
    concept_type: &str,
    label: &str,
    content: Json,
    band: &str,
    tags: &Vec<&str>,
    bank_id: &str,
) -> (res: Json)
    ensures
        res@ == spec_concept_body(
            domain@,
            concept_type@,
            label@,
            content@,
            band@,
            tags@.map_values(|t: &str| t@),
            bank_id@,
        ),
{
    let ghost cv = content@;
    let mut items: Vec<Json> = Vec::new();
    let mut i: usize = 0;
    while i < tags.len()
        invariant
            i <= tags@.len(),
            crate::json::items_view(items@) == tags@.take(i as int).map_values(|t: &str| js(t@)),
        decreases tags@.len() - i,
    {
        let ghost before = items@;
        crate::json::push_item(&mut items, string_value(tags[i]));
        proof {
            crate::json::lemma_items_view(before);
            crate::json::lemma_items_view(items@);
            assert(crate::json::items_view(items@) =~= tags@.take(i + 1).map_values(|t: &str| js(t@)));
        }
        i += 1;
    }
    assert(tags@.take(i as int) =~= tags@);
    assert(tags@.map_values(|t: &str| js(t@)) =~= tags@.map_values(|t: &str| t@).map_values(|t: Seq<char>| js(t)));
    let mut m: Vec<(String, Json)> = Vec::new();
    crate::json::push_member(&mut m, "domain", string_value(domain));
    crate::json::push_member(&mut m, "concept_type", string_value(concept_type));
    crate::json::push_member(&mut m, "label", string_value(label));
    crate::json::push_member(&mut m, "content", content);
    crate::json::push_member(&mut m, "difficulty_band", string_value(band));
    let ghost tv = crate::json::items_view(items@);
    crate::json::push_member(&mut m, "tags", Json::Array(items));
    crate::json::push_member(&mut m, "knowledge_bank_id", string_value(bank_id));
    assert(crate::json::members_view(m@) =~= seq![
        ("domain"@, js(domain@)),
        ("concept_type"@, js(concept_type@)),
        ("label"@, js(label@)),
        ("content"@, cv),
        ("difficulty_band"@, js(band@)),
        ("tags"@, JsonV::Array(tv)),
        ("knowledge_bank_id"@, js(bank_id@)),
    ]);
    object1("fields", Json::Object(m))
}

/// The content of a vocabulary concept.
pub fn vocab_content(term: &str, reading: &str, meaning: &str) -> (res: Json)
    ensures
        res@ == JsonV::Object(seq![("term"@, js(term@)), ("reading"@, js(reading@)), ("meaning"@, js(meaning@))]),
{
    object3("term", string_value(term), "reading", string_value(reading), "meaning", string_value(meaning))
}

/// The content of a kanji concept.
pub fn kanji_content(character: &str, reading: &str, meaning: &str) -> (res: Json)
    ensures
        res@ == JsonV::Object(
            seq![("character"@, js(character@)), ("reading"@, js(reading@)), ("meaning"@, js(meaning@))],
        ),
{
    object3("character", string_value(character), "reading", string_value(reading), "meaning", string_value(meaning))
}

/// The content of a grammar concept, with its place in the sequence.
pub fn grammar_content(pattern: &str, description: &str, order: u32) -> (res: Json)
    ensures
        res@ == JsonV::Object(seq![
            ("pattern"@, js(pattern@)),
            ("description"@, js(description@)),
            ("order"@, JsonV::Number(NumberV::PosInt(order as u64))),
        ]),
{
    object3(
        "pattern",
        string_value(pattern),
        "description",
        string_value(description),
        "order",
        Json::Number(JsonNumber::PosInt(order as u64)),
    )
}

/// The progress a knowledge bank reports after each source.
pub fn import_progress_body(concepts: u32, links: u32, source_type: &str) -> (res: Json)
    ensures
        res@ == JsonV::Object(seq![
            ("concepts_imported"@, JsonV::Number(NumberV::PosInt(concepts as u64))),
            ("links_imported"@, JsonV::Number(NumberV::PosInt(links as u64))),
            ("source_type"@, js(source_type@)),
        ]),
{
    object3(
        "concepts_imported",
        Json::Number(JsonNumber::PosInt(concepts as u64)),
        "links_imported",
        Json::Number(JsonNumber::PosInt(links as u64)),
        "source_type",
        string_value(source_type),
    )
}

/// The totals a knowledge bank reports when the import completes.
pub fn import_complete_body(concepts: u32, links: u32) -> (res: Json)
    ensures
        res@ == JsonV::Object(seq![
            ("total_concepts"@, JsonV::Number(NumberV::PosInt(concepts as u64))),
            ("total_links"@, JsonV::Number(NumberV::PosInt(links as u64))),
        ]),
{
    object2(
        "total_concepts",
        Json::Number(JsonNumber::PosInt(concepts as u64)),
        "total_links",
        Json::Number(JsonNumber::PosInt(links as u64)),
    )
}

/// The prerequisite links of a grammar sequence: each point depends on the
/// one before it.
pub open spec fn spec_sequence_links(ids: Seq<Seq<char>>) -> Seq<(Seq<char>, Seq<char>)> {
    Seq::new((if ids.len() > 0 { ids.len() - 1 } else { 0 }) as nat, |i: int| (ids[i], ids[i + 1]))
}

/// The plain values of pairs of strings.
pub open spec fn pairs_view(v: Seq<(String, String)>) -> Seq<(Seq<char>, Seq<char>)> {
    v.map_values(|p: (String, String)| (p.0@, p.1@))
}

/// The prerequisite links between consecutive concepts, source first.
pub fn sequence_links(ids: &Vec<String>) -> (res: Vec<(String, String)>)
    ensures
        pairs_view(res@) == spec_sequence_links(ids@.map_values(|s: String| s@)),
{
    let ghost iv = ids@.map_values(|s: String| s@);
    let mut out: Vec<(String, String)> = Vec::new();
    if ids.len() == 0 {
        assert(pairs_view(out@) =~= spec_sequence_links(iv));
        return out;
    }
    let mut i: usize = 1;
    while i < ids.len()
        invariant
            1 <= i <= ids@.len(),
            iv == ids@.map_values(|s: String| s@),
            pairs_view(out@) =~= Seq::new((i - 1) as nat, |k: int| (iv[k], iv[k + 1])),
        decreases ids@.len() - i,
    {
        let a = ids[i - 1].clone();
        let b = ids[i].clone();
        assert(a@ == iv[i - 1] && b@ == iv[i as int]);
        let ghost before = pairs_view(out@);
        out.push((a, b));
        assert(pairs_view(out@) =~= before.push((iv[i - 1], iv[i as int])));
        i += 1;
        assert(pairs_view(out@) =~= Seq::new((i - 1) as nat, |k: int| (iv[k], iv[k + 1])));
    }
    assert(pairs_view(out@) =~= spec_sequence_links(iv));
    out
}

/// The kanji-to-vocabulary prerequisite links for one kanji: each vocabulary
/// item whose term contains the kanji, in order.
pub open spec fn kanji_links(kanji: (Seq<char>, Seq<char>), vocab: Seq<(Seq<char>, Seq<char>, Seq<char>)>) -> Seq<
    (Seq<char>, Seq<char>),
>
    decreases vocab.len(),
{
    if vocab.len() == 0 {
        seq![]
    } else {
        let rest = kanji_links(kanji, vocab.drop_last());
        if contains_seq(vocab.last().1, kanji.0) {
            rest.push((kanji.1, vocab.last().2))
        } else {
            rest
        }
    }
}

/// The kanji-to-vocabulary prerequisite links: for each kanji in order, a
/// link from it to each vocabulary item whose term contains it.
pub open spec fn spec_kanji_vocab_links(
    kanji: Seq<(Seq<char>, Seq<char>)>,
    vocab: Seq<(Seq<char>, Seq<char>, Seq<char>)>,
) -> Seq<(Seq<char>, Seq<char>)>
    decreases kanji.len(),
{
    if kanji.len() == 0 {
        seq![]
    } else {
        spec_kanji_vocab_links(kanji.drop_last(), vocab) + kanji_links(kanji.last(), vocab)
    }
}

/// One kanji's links: a link to a vocabulary item is there exactly when the
/// item's text contains the kanji.
pub proof fn lemma_kanji_links_exact(
    kanji: (Seq<char>, Seq<char>),
    vocab: Seq<(Seq<char>, Seq<char>, Seq<char>)>,
    link: (Seq<char>, Seq<char>),
)
    ensures
        kanji_links(kanji, vocab).contains(link) <==> exists|j: int|
            0 <= j < vocab.len() && contains_seq(#[trigger] vocab[j].1, kanji.0) && link == (kanji.1, vocab[j].2),
    decreases vocab.len(),
{
    if vocab.len() > 0 {
        let init = vocab.drop_last();
        lemma_kanji_links_exact(kanji, init, link);
        let rest = kanji_links(kanji, init);
        let last = vocab.len() - 1;
        if contains_seq(vocab.last().1, kanji.0) {
            assert(kanji_links(kanji, vocab) == rest.push((kanji.1, vocab.last().2)));
            if link == (kanji.1, vocab.last().2) {
                assert(rest.push(link)[rest.len() as int] == link);
            }
        }
        if kanji_links(kanji, vocab).contains(link) {
            if !rest.contains(link) {
                assert(contains_seq(vocab[last].1, kanji.0) && link == (kanji.1, vocab[last].2));
            } else {
                let j = choose|j: int|
                    0 <= j < init.len() && contains_seq(#[trigger] init[j].1, kanji.0) && link == (kanji.1, init[j].2);
                assert(vocab[j] == init[j]);
            }
        }
        if exists|j: int| 0 <= j < vocab.len() && contains_seq(#[trigger] vocab[j].1, kanji.0) && link == (kanji.1, vocab[j].2) {
            let j = choose|j: int|
                0 <= j < vocab.len() && contains_seq(#[trigger] vocab[j].1, kanji.0) && link == (kanji.1, vocab[j].2);
            if j < last {
                assert(init[j] == vocab[j]);
                assert(rest.contains(link));
                let k = choose|k: int| 0 <= k < rest.len() && rest[k] == link;
                assert(kanji_links(kanji, vocab)[k] == link);
            } else {
                assert(kanji_links(kanji, vocab) == rest.push(link));
                assert(kanji_links(kanji, vocab)[rest.len() as int] == link);
            }
        }
    }
}

/// A kanji is linked to a vocabulary item exactly when the item's text
/// contains the kanji's character: no other link is made, and none of
/// these is missed.
pub proof fn lemma_kanji_vocab_links_exact(
    kanji: Seq<(Seq<char>, Seq<char>)>,
    vocab: Seq<(Seq<char>, Seq<char>, Seq<char>)>,
    link: (Seq<char>, Seq<char>),
)
    ensures
        spec_kanji_vocab_links(kanji, vocab).contains(link) <==> exists|i: int, j: int|
            0 <= i < kanji.len() && 0 <= j < vocab.len() && contains_seq(#[trigger] vocab[j].1, #[trigger] kanji[i].0)
                && link == (kanji[i].1, vocab[j].2),
    decreases kanji.len(),
{
    if kanji.len() > 0 {
        let init = kanji.drop_last();
        let last = kanji.len() - 1;
        lemma_kanji_vocab_links_exact(init, vocab, link);
        lemma_kanji_links_exact(kanji.last(), vocab, link);
        let a = spec_kanji_vocab_links(init, vocab);
        let b = kanji_links(kanji.last(), vocab);
        assert(spec_kanji_vocab_links(kanji, vocab) == a + b);
        if (a + b).contains(link) {
            let k = choose|k: int| 0 <= k < (a + b).len() && (a + b)[k] == link;
            if k < a.len() {
                assert(a[k] == link);
                let (i, j) = choose|i: int, j: int|
                    0 <= i < init.len() && 0 <= j < vocab.len() && contains_seq(#[trigger] vocab[j].1, #[trigger] init[i].0)
                        && link == (init[i].1, vocab[j].2);
                assert(kanji[i] == init[i]);
            } else {
                assert(b[k - a.len()] == link);
                assert(b.contains(link));
                let j = choose|j: int|
                    0 <= j < vocab.len() && contains_seq(#[trigger] vocab[j].1, kanji.last().0) && link == (kanji.last().1, vocab[j].2);
                assert(kanji[last] == kanji.last());
            }
        }
        if exists|i: int, j: int|
            0 <= i < kanji.len() && 0 <= j < vocab.len() && contains_seq(#[trigger] vocab[j].1, #[trigger] kanji[i].0)
                && link == (kanji[i].1, vocab[j].2) {
            let (i, j) = choose|i: int, j: int|
                0 <= i < kanji.len() && 0 <= j < vocab.len() && contains_seq(#[trigger] vocab[j].1, #[trigger] kanji[i].0)
                    && link == (kanji[i].1, vocab[j].2);
            if i < last {
                assert(init[i] == kanji[i]);
                assert(a.contains(link));
                let k = choose|k: int| 0 <= k < a.len() && a[k] == link;
                assert((a + b)[k] == link);
            } else {
                assert(kanji.last() == kanji[i]);
                assert(b.contains(link));
                let k = choose|k: int| 0 <= k < b.len() && b[k] == link;
                assert((a + b)[a.len() + k] == link);
            }
        }
    }
}

/// The plain values of triples of strings.
pub open spec fn triples_view(v: Seq<(String, String, String)>) -> Seq<(Seq<char>, Seq<char>, Seq<char>)> {
    v.map_values(|p: (String, String, String)| (p.0@, p.1@, p.2@))
}

/// The links from the imported kanji (character, concept id) to the
/// imported vocabulary (term, text searched, concept id) that uses them,
/// source first.
pub fn kanji_vocab_links(kanji: &Vec<(String, String)>, vocab: &Vec<(String, String, String)>) -> (res: Vec<
    (String, String),
>)
    ensures
        pairs_view(res@) == spec_kanji_vocab_links(pairs_view(kanji@), triples_view(vocab@)),
{
    let ghost kv = pairs_view(kanji@);
    let ghost vv = triples_view(vocab@);
    let mut out: Vec<(String, String)> = Vec::new();
    let mut i: usize = 0;
    while i < kanji.len()
        invariant
            i <= kanji@.len(),
            kv == pairs_view(kanji@),
            vv == triples_view(vocab@),
            pairs_view(out@) == spec_kanji_vocab_links(kv.take(i as int), vv),
        decreases kanji@.len() - i,
    {
        let ghost before = pairs_view(out@);
        let mut j: usize = 0;
        while j < vocab.len()
            invariant
                i < kanji@.len(),
                j <= vocab@.len(),
                kv == pairs_view(kanji@),
                vv == triples_view(vocab@),
                pairs_view(out@) == before + kanji_links(kv[i as int], vv.take(j as int)),
            decreases vocab@.len() - j,
        {
            proof {
                assert(vv.take(j + 1).drop_last() =~= vv.take(j as int));
                assert(vv.take(j + 1).last() == vv[j as int]);
            }
            if str_contains(vocab[j].1.as_str(), kanji[i].0.as_str()) {
                let ghost mid = pairs_view(out@);
                out.push((kanji[i].1.clone(), vocab[j].2.clone()));
                assert(pairs_view(out@) =~= mid.push((kv[i as int].1, vv[j as int].2)));
            }
            j += 1;
        }
        proof {
            assert(vv.take(j as int) =~= vv);
            assert(kv.take(i + 1).drop_last() =~= kv.take(i as int));
            assert(kv.take(i + 1).last() == kv[i as int]);
        }
        i += 1;
    }
    assert(kv.take(i as int) =~= kv);
    out
}

/// The default Temper API endpoint of an import.
pub const IMPORT_DEFAULT_API_URL: &'static str = "http://127.0.0.1:3000";

/// The Temper API endpoint of an import: the configured one unless it is
/// empty or holds an unresolved secret.
pub open spec fn spec_import_api_url(config: JsonV) -> Seq<char> {
    match opt_str(spec_get(config, "temper_api_url"@)) {
        Some(u) if u.len() > 0 && !contains_seq(u, "{secret:"@) => u,
        _ => IMPORT_DEFAULT_API_URL@,
    }
}

/// The Temper API endpoint an import talks to.
pub fn import_api_url(config: &Json) -> (res: String)
    ensures
        res@ == spec_import_api_url(config@),
{
    match config.get_str("temper_api_url") {
        Some(u) => {
            if chars_of(u).len() > 0 && !str_contains(u, "{secret:") {
                u.to_string()
            } else {
                IMPORT_DEFAULT_API_URL.to_string()
            }
        },
        None => IMPORT_DEFAULT_API_URL.to_string(),
    }
}

/// The headers an import sends to the Temper data API, as a system agent.
pub open spec fn spec_import_headers(tenant: Seq<char>, principal_id: Seq<char>) -> Seq<(Seq<char>, Seq<char>)> {
    seq![
        ("content-type"@, "application/json"@),
        ("x-tenant-id"@, tenant),
        ("x-temper-principal-kind"@, "agent"@),
        ("x-temper-principal-id"@, principal_id),
        ("x-temper-agent-type"@, "system"@),
    ]
}

/// The headers an import sends.
pub fn import_headers(tenant: &str, principal_id: &str) -> (res: Vec<(String, String)>)
    ensures
        pairs_view(res@) == spec_import_headers(tenant@, principal_id@),
{
    let mut h: Vec<(String, String)> = Vec::new();
    h.push(("content-type".to_string(), "application/json".to_string()));
    h.push(("x-tenant-id".to_string(), tenant.to_string()));
    h.push(("x-temper-principal-kind".to_string(), "agent".to_string()));
    h.push(("x-temper-principal-id".to_string(), principal_id.to_string()));
    h.push(("x-temper-agent-type".to_string(), "system".to_string()));
    assert(pairs_view(h@) =~= spec_import_headers(tenant@, principal_id@));
    h
}


/// An import request names the tenant under `x-tenant-id` and the acting
/// principal under `x-temper-principal-id`.
pub proof fn law_import_headers(tenant: Seq<char>, principal_id: Seq<char>)
    ensures
        spec_import_headers(tenant, principal_id).contains(("x-tenant-id"@, tenant)),
        spec_import_headers(tenant, principal_id).contains(("x-temper-principal-id"@, principal_id)),
{
    let h = spec_import_headers(tenant, principal_id);
    assert(h[1] == ("x-tenant-id"@, tenant));
    assert(h[3] == ("x-temper-principal-id"@, principal_id));
}

} // verus!
