# cookie_run_kingdom_wiki_scraper

Reads the Cookie Run: Kingdom fandom wiki: the list of cookies, each cookie's
page, the gacha page and the treasure page.

`src/` is a library verified with Verus. It takes the text of a page and
returns records (`Character`, `RarityChanceText`, `Treasure`) or links. The
readers `get_character`, `get_rarity_chances` and `get_treasures` require a
page that holds everything they read (stated as a `*_readable` predicate);
their `try_` twins take any page and return the records or a `ScrapeError`
saying what the page lacks. The
`scraper` crate parses the page and matches CSS selectors; the `regex` crate
trims image paths. Everything else is verified:

- `dom`: the page as a pre-order outline with one column per selector,
  attribute name and inner HTML; subtrees, selection, text, siblings, children.
- `extract`: the readings shared by the page readers.
- `api::character`, `api::rarity`, `api::topping`: the current readers.
- `character`, `rarity`, `legacy_scraper`, `t_characters`: the earlier readers
  and their record types.
- `text`, `pattern`, `tools`: string helpers, the image path trim, addresses.

`app/` is the program: it fetches the pages with `reqwest`, hands their text
to the checked readers (stopping with a panic on a page they cannot read), reads chance percentages as numbers and writes JSON (and, with
`--save-imgs`, the images) under `./scraper_output`. Its record types carry
the `serde` and `ts-rs` derives.

`tests/` runs the readers on small pages.
