//! The short words of the three languages, which no statistics can judge.

use vstd::prelude::*;

use crate::order::same_text;

verus! {

/// Common Russian words of two and three letters, in order.
pub const COMMON_RU_SHORT: [&'static str; 88] = [
    "без", "был", "быт", "вас", "век", "все", "всю", "всё", "вы", "где", "да", "два", "для", "до",
    "дом", "его", "ее", "ей", "ему", "еще", "ещё", "её", "же", "за", "из", "изо", "или", "им",
    "ими", "имя", "их", "как", "кто", "ли", "мин", "мне", "мог", "мои", "моя", "мы", "на", "нам",
    "нас", "ндс", "не", "ней", "нет", "них", "но", "об", "обо", "он", "она", "они", "оно", "от",
    "ото", "по", "под", "при", "про", "раз", "рдс", "сам", "сих", "см", "со", "так", "там", "тв",
    "те", "тем", "тех", "тип", "то", "той", "том", "тот", "три", "тут", "ты", "уж", "уже", "чем",
    "чер", "что", "это", "эту",
];

/// Common Ukrainian words of two and three letters, in order.
pub const COMMON_UA_SHORT: [&'static str; 44] = [
    "або", "але", "без", "був", "вас", "ви", "все", "всю", "всі", "від", "він", "для", "до",
    "моя", "моє", "мої", "нам", "нас", "ней", "них", "ні", "при", "про", "під", "так", "там",
    "тим", "тут", "усе", "усі", "хто", "це", "цей", "цю", "ця", "чи", "як", "яка", "яке", "які",
    "із", "їм", "їх", "її",
];

/// Common English words and abbreviations of two and three letters, in order.
pub const COMMON_EN_SHORT: [&'static str; 152] = [
    "add", "ali", "am", "an", "and", "any", "api", "app", "are", "as", "at", "ats", "aws", "bad",
    "bat", "be", "big", "bin", "box", "but", "by", "can", "cd", "cfg", "cli", "cmd", "con", "crm",
    "css", "csv", "day", "db", "dev", "did", "dir", "dns", "do", "doc", "dom", "env", "err",
    "few", "flux", "for", "fpv", "ftp", "get", "git", "go", "had", "has", "he", "her", "him",
    "his", "how", "hub", "id", "if", "in", "io", "ip", "is", "it", "its", "js", "key", "let",
    "lib", "lin", "log", "low", "ls", "mac", "mad", "map", "may", "md", "me", "mr", "my", "net",
    "new", "no", "not", "now", "npm", "of", "off", "ok", "old", "on", "one", "or", "org", "os",
    "our", "out", "own", "pdf", "pkg", "png", "pr", "py", "red", "rl", "rs", "run", "sad", "say",
    "see", "sh", "she", "so", "sql", "src", "ssh", "ssl", "sys", "tcp", "the", "tls", "too",
    "try", "ts", "two", "txt", "udp", "ui", "up", "uri", "url", "usb", "use", "ux", "val", "vat",
    "vpn", "vps", "was", "way", "wc", "we", "web", "who", "win", "wp", "wsl", "xml", "yes", "you",
    "zip",
];

/// Russian words of one letter.
pub const COMMON_RU_SINGLE: [&'static str; 8] = ["в", "и", "а", "о", "с", "у", "я", "к"];

/// Ukrainian words of one letter.
pub const COMMON_UA_SINGLE: [&'static str; 8] = ["в", "і", "а", "о", "у", "я", "є", "з"];

/// English words of one letter.
pub const COMMON_EN_SINGLE: [&'static str; 2] = ["a", "i"];

/// Whether a word is in a list.
pub open spec fn listed(list: Seq<&'static str>, w: Seq<char>) -> bool {
    exists|i: int| 0 <= i < list.len() && #[trigger] list[i]@ == w
}

/// Whether a word is in a list.
pub fn is_listed(list: &[&'static str], w: &str) -> (r: bool)
    ensures
        r == listed(list@, w@),
{
    let mut i: usize = 0;
    while i < list.len()
        invariant
            i <= list@.len(),
            forall|j: int| 0 <= j < i ==> #[trigger] list@[j]@ != w@,
        decreases list.len() - i,
    {
        if same_text(list[i], w) {
            return true;
        }
        i += 1;
    }
    false
}

} // verus!
