# mc_cli

A command-line Minecraft launcher: it installs vanilla Minecraft and the
Fabric, Quilt, Legacy Fabric, Babric, Ornithe, LiteLoader and Risugami
ModLoader variants, installs Modrinth modpacks, and starts the game.

The launcher's decisions are a library verified with Verus (`src/`):

- `text` — string operations (`split`, `replace`, `trim`, number parsing
  and printing) modelled on character sequences;
- `string_map` — an insertion-ordered map from strings to values;
- `vanilla` — the rules that decide which libraries and arguments apply on a
  platform, the download plan of a version, and the Java command line;
- `fabric`, `loaders` — version selection and the URLs and paths of the
  Fabric-like loaders, and their launch arguments;
- `liteloader` — version selection, the libraries a version needs and the
  repositories each is looked up in;
- `risugami`, `mrpack`, `util`, `app`, `version` — ModLoader releases,
  modpack listings and confirmation, class paths, installed-version names,
  the command types and Maven coordinates.

`app/` is the program around it: the command line (clap), the documents'
serde types, downloads, the file system and the Java process.
