# rswitcher

Layout switching for people who type in English, Russian and Ukrainian: a word
typed in the wrong keyboard layout is recognised, erased and typed again in the
right one.

- `src/` is the library. It is verified with Verus: every function states in its
  contract what it returns, and the laws that relate several functions are proof
  functions whose names begin with `law_`.
- `app/` is the program around it: hooks, tray icon, settings window, files.
- `tests/` runs the library on concrete words.

## Modules

| Module | What it decides |
|---|---|
| `unicode`, `order`, `words`, `text` | letters, texts, sets and maps of words |
| `layout` | what a key types in each layout |
| `bigrams`, `lexicon`, `scoring` | how likely a word is in each language |
| `typing`, `detection`, `buffer` | whether a word is switched, and to what |
| `laws` | what holds of every word |
| `keys`, `hook`, `hook_laws` | what a key press does, and what holds of every key |
| `switcher` | the key events that replace a word |
| `settings`, `commands`, `exceptions`, `tray`, `window`, `logger` | the rest of the program's rules |
| `icon` | the icon of the program and the `.ico` format |
| `benchmark` | how well detection does on a corpus |
| `bilingual` | the smaller switcher between English and Russian |

Scores are counted in billionths of a nat, and sensitivity in millionths: the
library holds no floating-point numbers. The letter pairs of a language are
counted by `bigrams::build_table`; the program turns the counts into
logarithms and hands the library the resulting `LanguageModel`.
