# tadoru

A directory jumper for the terminal. It searches the folders and files below
where the shell is, browses them one level at a time or as a tree, keeps a list
of favorite folders, and prints the folder to go to.

The library under `src/` decides everything the picker does, and each of its
functions is verified by Verus against a contract that says what it does:

- paths and text: `fs_path`, `text`, `letters`, `width`, `order`
- what is on the disk and in the lists: `disk`, `world`, `source`, `scan`,
  `fuzzy`, `favorites`, `marks`
- the ways to look at it: `browse`, `tree`, `action_menu`, `key_menu`
- the picker: `picker`, `moves`, `tree_moves`, `root_moves`, `place_moves`, and
  what it makes of keys (`input`), of the mouse (`pointer`), of what the program
  did for it (`session`) and of the scans going on (`turns`)
- the screen: `screen`, `drawn`, `draw`, `icons`, `header`, `render` and the
  `*_screen` modules
- the shell integration: `names`, `init`, `mode`
- what holds of all this together: `laws`, and the public proofs beside the
  types they are about

The library reads no file and draws nothing itself. With each event the program
hands it a `World`: the folders it may look at, the time, and the rows of its
lists. It answers with a `Step` to take, or with what is to be drawn. The
program under `app/` reads the disk, walks it, matches what is typed, and
paints.

Three outside crates are called from the library, each through a wrapper with a
stated contract: `nucleo` for fuzzy matching, `ratatui` for dividing an area,
and `unicode-width` for the width of text.
