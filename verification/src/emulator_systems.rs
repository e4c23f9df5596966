//! The emulated systems that the launcher supports, with their cores, ROM file
//! extensions, install tiles and artwork catalogs.
use vstd::prelude::*;

use crate::emulation_target::{normalize_key, normalize_key_seq};
use crate::text::{chars_of, chars_eq, compare_chars, seq_less, lemma_seq_less_transitive,
    lemma_seq_less_asymmetric, lemma_seq_less_total};

verus! {

broadcast use vstd::string::group_string_axioms;

/// One supported system.
#[derive(Clone, Debug)]
pub struct EmulatorSystemSpec {
    pub system_key: &'static str,
    pub core_file: &'static str,
    pub archive_url: &'static str,
    pub rom_extensions: Vec<&'static str>,
    pub supports_save_sync: bool,
    pub install_tile_key: &'static str,
    pub install_title: &'static str,
    pub install_description: &'static str,
    pub artwork_catalog_path: &'static str,
    pub artwork_aliases: Vec<&'static str>,
}

/// The contents of a supported system.
pub struct SystemSpecView {
    pub system_key: Seq<char>,
    pub core_file: Seq<char>,
    pub archive_url: Seq<char>,
    pub rom_extensions: Seq<Seq<char>>,
    pub supports_save_sync: bool,
    pub install_tile_key: Seq<char>,
    pub install_title: Seq<char>,
    pub install_description: Seq<char>,
    pub artwork_catalog_path: Seq<char>,
    pub artwork_aliases: Seq<Seq<char>>,
}

/// The character sequences held by a sequence of string slices.
pub open spec fn strs_view(v: Seq<&'static str>) -> Seq<Seq<char>> {
    Seq::new(v.len(), |i: int| v[i]@)
}

impl View for EmulatorSystemSpec {
    type V = SystemSpecView;

    open spec fn view(&self) -> SystemSpecView {
        SystemSpecView {
            system_key: self.system_key@,
            core_file: self.core_file@,
            archive_url: self.archive_url@,
            rom_extensions: strs_view(self.rom_extensions@),
            supports_save_sync: self.supports_save_sync,
            install_tile_key: self.install_tile_key@,
            install_title: self.install_title@,
            install_description: self.install_description@,
            artwork_catalog_path: self.artwork_catalog_path@,
            artwork_aliases: strs_view(self.artwork_aliases@),
        }
    }
}

/// The install tile of a system in the launcher's install screen.
#[derive(Clone, Copy, Debug)]
pub struct EmulatorInstallTileSpec {
    pub key: &'static str,
    pub system_key: &'static str,
    pub title: &'static str,
    pub description: &'static str,
}

/// The contents of an install tile.
pub struct InstallTileView {
    pub key: Seq<char>,
    pub system_key: Seq<char>,
    pub title: Seq<char>,
    pub description: Seq<char>,
}

impl View for EmulatorInstallTileSpec {
    type V = InstallTileView;

    open spec fn view(&self) -> InstallTileView {
        InstallTileView {
            key: self.key@,
            system_key: self.system_key@,
            title: self.title@,
            description: self.description@,
        }
    }
}

/// The supported systems, in their fixed order.
pub open spec fn system_table() -> Seq<SystemSpecView> {
    seq![
        SystemSpecView {
            system_key: "nes"@,
            core_file: "nestopia_libretro.so"@,
            archive_url: "https://buildbot.libretro.com/nightly/linux/x86_64/latest/nestopia_libretro.so.zip"@,
            rom_extensions: seq!["nes"@, "fds"@, "unf"@, "unif"@],
            supports_save_sync: true,
            install_tile_key: "core-nes"@,
            install_title: "NES Core"@,
            install_description: "RetroArch Nestopia core for NES ROMs."@,
            artwork_catalog_path: "Nintendo - Nintendo Entertainment System"@,
            artwork_aliases: seq![],
        },
        SystemSpecView {
            system_key: "gba"@,
            core_file: "mgba_libretro.so"@,
            archive_url: "https://buildbot.libretro.com/nightly/linux/x86_64/latest/mgba_libretro.so.zip"@,
            rom_extensions: seq!["gba"@],
            supports_save_sync: true,
            install_tile_key: "core-gba"@,
            install_title: "GBA Core"@,
            install_description: "RetroArch mGBA core for GBA ROMs."@,
            artwork_catalog_path: "Nintendo - Game Boy Advance"@,
            artwork_aliases: seq![],
        },
        SystemSpecView {
            system_key: "snes"@,
            core_file: "snes9x_libretro.so"@,
            archive_url: "https://buildbot.libretro.com/nightly/linux/x86_64/latest/snes9x_libretro.so.zip"@,
            rom_extensions: seq!["sfc"@, "smc"@, "swc"@, "fig"@, "bs"@],
            supports_save_sync: true,
            install_tile_key: "core-snes"@,
            install_title: "SNES Core"@,
            install_description: "RetroArch Snes9x core for SNES ROMs."@,
            artwork_catalog_path: "Nintendo - Super Nintendo Entertainment System"@,
            artwork_aliases: seq![],
        },
        SystemSpecView {
            system_key: "atari2600"@,
            core_file: "stella_libretro.so"@,
            archive_url: "https://buildbot.libretro.com/nightly/linux/x86_64/latest/stella_libretro.so.zip"@,
            rom_extensions: seq!["a26"@, "bin"@, "rom"@],
            supports_save_sync: false,
            install_tile_key: "core-atari2600"@,
            install_title: "Atari 2600 Core"@,
            install_description: "RetroArch Stella core for Atari 2600 ROMs."@,
            artwork_catalog_path: "Atari - 2600"@,
            artwork_aliases: seq!["a2600"@],
        },
        SystemSpecView {
            system_key: "nds"@,
            core_file: "melonds_libretro.so"@,
            archive_url: "https://buildbot.libretro.com/nightly/linux/x86_64/latest/melonds_libretro.so.zip"@,
            rom_extensions: seq!["nds"@],
            supports_save_sync: true,
            install_tile_key: "core-nds"@,
            install_title: "NDS Core"@,
            install_description: "RetroArch melonDS core for Nintendo DS ROMs."@,
            artwork_catalog_path: "Nintendo - Nintendo DS"@,
            artwork_aliases: seq![],
        },
        SystemSpecView {
            system_key: "3ds"@,
            core_file: "citra_libretro.so"@,
            archive_url: "https://buildbot.libretro.com/nightly/linux/x86_64/latest/citra_libretro.so.zip"@,
            rom_extensions: seq!["3ds"@, "cci"@, "cxi"@, "3dsx"@],
            supports_save_sync: true,
            install_tile_key: "core-3ds"@,
            install_title: "3DS Core"@,
            install_description: "RetroArch Citra core for Nintendo 3DS ROMs."@,
            artwork_catalog_path: "Nintendo - Nintendo 3DS"@,
            artwork_aliases: seq![],
        },
    ]
}

/// Artwork catalogs for systems that have no core, by system key.
pub open spec fn extra_artwork_table() -> Seq<(Seq<char>, Seq<char>)> {
    seq![
        ("gb"@, "Nintendo - Game Boy"@),
        ("gbc"@, "Nintendo - Game Boy Color"@),
        ("n64"@, "Nintendo - Nintendo 64"@),
        ("genesis"@, "Sega - Mega Drive - Genesis"@),
        ("megadrive"@, "Sega - Mega Drive - Genesis"@),
        ("md"@, "Sega - Mega Drive - Genesis"@),
        ("psp"@, "Sony - PlayStation Portable"@),
    ]
}

/// The contents of a sequence of system specifications.
pub open spec fn specs_view(v: Seq<EmulatorSystemSpec>) -> Seq<SystemSpecView> {
    Seq::new(v.len(), |i: int| v[i]@)
}

/// The supported systems, in their fixed order.
pub fn emulator_system_specs() -> (r: Vec<EmulatorSystemSpec>)
    ensures
        specs_view(r@) == system_table(),
{
    let r = vec![
        EmulatorSystemSpec {
            system_key: "nes",
            core_file: "nestopia_libretro.so",
            archive_url: "https://buildbot.libretro.com/nightly/linux/x86_64/latest/nestopia_libretro.so.zip",
            rom_extensions: vec!["nes", "fds", "unf", "unif"],
            supports_save_sync: true,
            install_tile_key: "core-nes",
            install_title: "NES Core",
            install_description: "RetroArch Nestopia core for NES ROMs.",
            artwork_catalog_path: "Nintendo - Nintendo Entertainment System",
            artwork_aliases: vec![],
        },
        EmulatorSystemSpec {
            system_key: "gba",
            core_file: "mgba_libretro.so",
            archive_url: "https://buildbot.libretro.com/nightly/linux/x86_64/latest/mgba_libretro.so.zip",
            rom_extensions: vec!["gba"],
            supports_save_sync: true,
            install_tile_key: "core-gba",
            install_title: "GBA Core",
            install_description: "RetroArch mGBA core for GBA ROMs.",
            artwork_catalog_path: "Nintendo - Game Boy Advance",
            artwork_aliases: vec![],
        },
        EmulatorSystemSpec {
            system_key: "snes",
            core_file: "snes9x_libretro.so",
            archive_url: "https://buildbot.libretro.com/nightly/linux/x86_64/latest/snes9x_libretro.so.zip",
            rom_extensions: vec!["sfc", "smc", "swc", "fig", "bs"],
            supports_save_sync: true,
            install_tile_key: "core-snes",
            install_title: "SNES Core",
            install_description: "RetroArch Snes9x core for SNES ROMs.",
            artwork_catalog_path: "Nintendo - Super Nintendo Entertainment System",
            artwork_aliases: vec![],
        },
        EmulatorSystemSpec {
            system_key: "atari2600",
            core_file: "stella_libretro.so",
            archive_url: "https://buildbot.libretro.com/nightly/linux/x86_64/latest/stella_libretro.so.zip",
            rom_extensions: vec!["a26", "bin", "rom"],
            supports_save_sync: false,
            install_tile_key: "core-atari2600",
            install_title: "Atari 2600 Core",
            install_description: "RetroArch Stella core for Atari 2600 ROMs.",
            artwork_catalog_path: "Atari - 2600",
            artwork_aliases: vec!["a2600"],
        },
        EmulatorSystemSpec {
            system_key: "nds",
            core_file: "melonds_libretro.so",
            archive_url: "https://buildbot.libretro.com/nightly/linux/x86_64/latest/melonds_libretro.so.zip",
            rom_extensions: vec!["nds"],
            supports_save_sync: true,
            install_tile_key: "core-nds",
            install_title: "NDS Core",
            install_description: "RetroArch melonDS core for Nintendo DS ROMs.",
            artwork_catalog_path: "Nintendo - Nintendo DS",
            artwork_aliases: vec![],
        },
        EmulatorSystemSpec {
            system_key: "3ds",
            core_file: "citra_libretro.so",
            archive_url: "https://buildbot.libretro.com/nightly/linux/x86_64/latest/citra_libretro.so.zip",
            rom_extensions: vec!["3ds", "cci", "cxi", "3dsx"],
            supports_save_sync: true,
            install_tile_key: "core-3ds",
            install_title: "3DS Core",
            install_description: "RetroArch Citra core for Nintendo 3DS ROMs.",
            artwork_catalog_path: "Nintendo - Nintendo 3DS",
            artwork_aliases: vec![],
        },
    ];
    assert(specs_view(r@) =~= system_table()) by {
        assert forall|i: int| 0 <= i < 6 implies #[trigger] specs_view(r@)[i] == system_table()[i] by {
            assert(strs_view(r@[i].rom_extensions@) =~= system_table()[i].rom_extensions);
            assert(strs_view(r@[i].artwork_aliases@) =~= system_table()[i].artwork_aliases);
        }
    }
    r
}

/// The install tile of a system.
pub open spec fn tile_of(s: SystemSpecView) -> InstallTileView {
    InstallTileView {
        key: s.install_tile_key,
        system_key: s.system_key,
        title: s.install_title,
        description: s.install_description,
    }
}

/// The contents of a sequence of install tiles.
pub open spec fn tiles_view(v: Seq<EmulatorInstallTileSpec>) -> Seq<InstallTileView> {
    Seq::new(v.len(), |i: int| v[i]@)
}

/// Whether tiles are in ascending order of title.
pub open spec fn tiles_sorted(t: Seq<InstallTileView>) -> bool {
    forall|i: int, j: int| 0 <= i < j < t.len() ==> !seq_less(#[trigger] t[j].title, #[trigger] t[i].title)
}

/// The install tiles of all supported systems, in ascending order of title.
pub fn emulation_install_tiles() -> (r: Vec<EmulatorInstallTileSpec>)
    ensures
        tiles_view(r@).to_multiset() == system_table().map_values(|s: SystemSpecView| tile_of(s)).to_multiset(),
        tiles_sorted(tiles_view(r@)),
{
    broadcast use vstd::seq_lib::group_to_multiset_ensures;

    let specs = emulator_system_specs();
    let ghost all_tiles = system_table().map_values(|s: SystemSpecView| tile_of(s));
    let mut tiles: Vec<EmulatorInstallTileSpec> = Vec::new();
    let mut i: usize = 0;
    while i < specs.len()
        invariant
            i <= specs@.len(),
            specs_view(specs@) == system_table(),
            all_tiles == system_table().map_values(|s: SystemSpecView| tile_of(s)),
            tiles_view(tiles@).to_multiset() == all_tiles.take(i as int).to_multiset(),
            tiles_sorted(tiles_view(tiles@)),
        decreases specs.len() - i,
    {
        let spec = &specs[i];
        let tile = EmulatorInstallTileSpec {
            key: spec.install_tile_key,
            system_key: spec.system_key,
            title: spec.install_title,
            description: spec.install_description,
        };
        assert(tile@ == all_tiles[i as int]) by {
            assert(specs_view(specs@)[i as int] == system_table()[i as int]);
        }
        let title = chars_of(tile.title);
        // insert after every tile whose title is not greater
        let mut pos: usize = 0;
        while pos < tiles.len() && compare_chars(&chars_of(tiles[pos].title), &title) <= 0
            invariant
                pos <= tiles@.len(),
                title@ == tile@.title,
                forall|k: int| 0 <= k < pos ==> !seq_less(title@, #[trigger] tiles_view(tiles@)[k].title),
            decreases tiles.len() - pos,
        {
            pos += 1;
        }
        let ghost old_tiles = tiles_view(tiles@);
        tiles.insert(pos, tile);
        proof {
            assert(tiles_view(tiles@) =~= old_tiles.insert(pos as int, tile@));
            vstd::seq_lib::to_multiset_insert(old_tiles, pos as int, tile@);
            assert(all_tiles.take(i + 1) =~= all_tiles.take(i as int).push(all_tiles[i as int]));
            vstd::seq_lib::to_multiset_build(all_tiles.take(i as int), all_tiles[i as int]);
            assert(tiles_view(tiles@).to_multiset() == all_tiles.take(i + 1).to_multiset());
            let nt = tiles_view(tiles@);
            assert forall|a: int, b: int| 0 <= a < b < nt.len() implies !seq_less(
                #[trigger] nt[b].title,
                #[trigger] nt[a].title,
            ) by {
                if a < pos && b == pos {
                    assert(nt[a] == old_tiles[a]);
                } else if a == pos && b > pos {
                    assert(nt[b] == old_tiles[b - 1]);
                    if pos < old_tiles.len() {
                        // the tile at the old position has a greater title
                        lemma_seq_less_total(old_tiles[pos as int].title, title@);
                        if b - 1 > pos {
                            lemma_seq_less_total(old_tiles[b - 1].title, old_tiles[pos as int].title);
                            if seq_less(old_tiles[b - 1].title, title@) {
                                if seq_less(old_tiles[b - 1].title, old_tiles[pos as int].title) {
                                } else if old_tiles[b - 1].title == old_tiles[pos as int].title {
                                    lemma_seq_less_asymmetric(old_tiles[pos as int].title, title@);
                                } else {
                                    lemma_seq_less_transitive(old_tiles[pos as int].title, old_tiles[b - 1].title, title@);
                                    lemma_seq_less_asymmetric(old_tiles[pos as int].title, title@);
                                }
                            }
                        } else {
                            lemma_seq_less_asymmetric(old_tiles[pos as int].title, title@);
                        }
                    }
                } else if a < pos && b > pos {
                    assert(nt[a] == old_tiles[a]);
                    assert(nt[b] == old_tiles[b - 1]);
                } else if a > pos {
                    assert(nt[a] == old_tiles[a - 1]);
                    assert(nt[b] == old_tiles[b - 1]);
                } else {
                    assert(nt[a] == old_tiles[a]);
                    assert(nt[b] == old_tiles[b]);
                }
            }
        }
        i += 1;
    }
    assert(all_tiles.take(specs@.len() as int) =~= all_tiles);
    tiles
}

/// The keys of the systems whose ROMs discovery looks for, in table order.
pub fn discoverable_system_keys() -> (r: Vec<&'static str>)
    ensures
        strs_view(r@) == Seq::new(system_table().len(), |i: int| system_table()[i].system_key),
{
    let specs = emulator_system_specs();
    let mut keys: Vec<&'static str> = Vec::new();
    let mut i: usize = 0;
    while i < specs.len()
        invariant
            i <= specs@.len(),
            specs_view(specs@) == system_table(),
            strs_view(keys@) =~= Seq::new(i as nat, |k: int| system_table()[k].system_key),
        decreases specs.len() - i,
    {
        assert(specs_view(specs@)[i as int] == system_table()[i as int]);
        let ghost old_keys = strs_view(keys@);
        keys.push(specs[i].system_key);
        assert(strs_view(keys@) =~= old_keys.push(system_table()[i as int].system_key));
        i += 1;
    }
    keys
}

/// The position of the first supported system at or after `k` with the key `key`.
pub open spec fn system_index_from(key: Seq<char>, k: int) -> Option<int>
    decreases system_table().len() - k,
{
    if k < 0 || k >= system_table().len() {
        None
    } else if system_table()[k].system_key == key {
        Some(k)
    } else {
        system_index_from(key, k + 1)
    }
}

/// The supported system that `system` names, after trimming and lowercasing it.
pub open spec fn emulator_system_spec(system: Seq<char>) -> Option<SystemSpecView> {
    match normalize_key_seq(system) {
        None => None,
        Some(key) => match system_index_from(key, 0) {
            Some(i) => Some(system_table()[i]),
            None => None,
        },
    }
}

/// The supported system that `system` names, ignoring surrounding whitespace and case.
pub fn emulator_system(system: &str) -> (r: Option<EmulatorSystemSpec>)
    ensures
        match r {
            Some(s) => emulator_system_spec(system@) == Some(s@),
            None => emulator_system_spec(system@) is None,
        },
{
    let key = match normalize_key(system) {
        Some(k) => k,
        None => {
            return None;
        },
    };
    let kv = chars_of(key.as_str());
    let specs = emulator_system_specs();
    let mut i: usize = 0;
    while i < specs.len()
        invariant
            i <= specs@.len(),
            specs_view(specs@) == system_table(),
            kv@ == key@,
            normalize_key_seq(system@) == Some(key@),
            system_index_from(key@, 0) == system_index_from(key@, i as int),
        decreases specs.len() - i,
    {
        assert(specs_view(specs@)[i as int] == system_table()[i as int]);
        if chars_eq(&chars_of(specs[i].system_key), &kv) {
            return Some(specs[i].clone_spec());
        }
        i += 1;
    }
    None
}

impl EmulatorSystemSpec {
    /// A copy of this specification.
    pub fn clone_spec(&self) -> (r: EmulatorSystemSpec)
        ensures
            r@ == self@,
    {
        let mut exts: Vec<&'static str> = Vec::new();
        let mut i: usize = 0;
        while i < self.rom_extensions.len()
            invariant
                i <= self.rom_extensions@.len(),
                exts@ =~= self.rom_extensions@.take(i as int),
            decreases self.rom_extensions.len() - i,
        {
            exts.push(self.rom_extensions[i]);
            i += 1;
        }
        let mut aliases: Vec<&'static str> = Vec::new();
        let mut j: usize = 0;
        while j < self.artwork_aliases.len()
            invariant
                j <= self.artwork_aliases@.len(),
                aliases@ =~= self.artwork_aliases@.take(j as int),
            decreases self.artwork_aliases.len() - j,
        {
            aliases.push(self.artwork_aliases[j]);
            j += 1;
        }
        assert(exts@ =~= self.rom_extensions@);
        assert(aliases@ =~= self.artwork_aliases@);
        EmulatorSystemSpec {
            system_key: self.system_key,
            core_file: self.core_file,
            archive_url: self.archive_url,
            rom_extensions: exts,
            supports_save_sync: self.supports_save_sync,
            install_tile_key: self.install_tile_key,
            install_title: self.install_title,
            install_description: self.install_description,
            artwork_catalog_path: self.artwork_catalog_path,
            artwork_aliases: aliases,
        }
    }
}

/// Whether `key` is one of `names`.
pub open spec fn seqs_contain(names: Seq<Seq<char>>, key: Seq<char>) -> bool {
    exists|i: int| 0 <= i < names.len() && #[trigger] names[i] == key
}

/// The position of the first supported system at or after `k` with key or artwork alias
/// `key`.
pub open spec fn artwork_index_from(key: Seq<char>, k: int) -> Option<int>
    decreases system_table().len() - k,
{
    if k < 0 || k >= system_table().len() {
        None
    } else if system_table()[k].system_key == key || seqs_contain(
        system_table()[k].artwork_aliases,
        key,
    ) {
        Some(k)
    } else {
        artwork_index_from(key, k + 1)
    }
}

/// The position of the first extra artwork mapping at or after `k` for `key`.
pub open spec fn extra_artwork_index_from(key: Seq<char>, k: int) -> Option<int>
    decreases extra_artwork_table().len() - k,
{
    if k < 0 || k >= extra_artwork_table().len() {
        None
    } else if extra_artwork_table()[k].0 == key {
        Some(k)
    } else {
        extra_artwork_index_from(key, k + 1)
    }
}

/// The artwork catalog of the system that `system` names: that of a supported system
/// with that key or alias, else that of an extra mapping.
pub open spec fn artwork_catalog_spec(system: Seq<char>) -> Option<Seq<char>> {
    match normalize_key_seq(system) {
        None => None,
        Some(key) => match artwork_index_from(key, 0) {
            Some(i) => Some(system_table()[i].artwork_catalog_path),
            None => match extra_artwork_index_from(key, 0) {
                Some(i) => Some(extra_artwork_table()[i].1),
                None => None,
            },
        },
    }
}

/// Whether `key` is one of `names`.
fn strs_contain(names: &Vec<&'static str>, key: &Vec<char>) -> (r: bool)
    ensures
        r == seqs_contain(strs_view(names@), key@),
{
    let mut i: usize = 0;
    while i < names.len()
        invariant
            i <= names@.len(),
            forall|j: int| 0 <= j < i ==> strs_view(names@)[j] != key@,
        decreases names.len() - i,
    {
        if chars_eq(&chars_of(names[i]), key) {
            assert(strs_view(names@)[i as int] == key@);
            return true;
        }
        i += 1;
    }
    false
}

/// The artwork catalog of the system that `system` names, if any.
pub fn emulator_artwork_catalog_path(system: &str) -> (r: Option<&'static str>)
    ensures
        match r {
            Some(p) => artwork_catalog_spec(system@) == Some(p@),
            None => artwork_catalog_spec(system@) is None,
        },
{
    let key = match normalize_key(system) {
        Some(k) => k,
        None => {
            return None;
        },
    };
    let kv = chars_of(key.as_str());
    let specs = emulator_system_specs();
    let mut i: usize = 0;
    while i < specs.len()
        invariant
            i <= specs@.len(),
            specs_view(specs@) == system_table(),
            kv@ == key@,
            normalize_key_seq(system@) == Some(key@),
            artwork_index_from(key@, 0) == artwork_index_from(key@, i as int),
        decreases specs.len() - i,
    {
        assert(specs_view(specs@)[i as int] == system_table()[i as int]);
        if chars_eq(&chars_of(specs[i].system_key), &kv) || strs_contain(
            &specs[i].artwork_aliases,
            &kv,
        ) {
            return Some(specs[i].artwork_catalog_path);
        }
        i += 1;
    }
    let extra: Vec<(&'static str, &'static str)> = vec![
        ("gb", "Nintendo - Game Boy"),
        ("gbc", "Nintendo - Game Boy Color"),
        ("n64", "Nintendo - Nintendo 64"),
        ("genesis", "Sega - Mega Drive - Genesis"),
        ("megadrive", "Sega - Mega Drive - Genesis"),
        ("md", "Sega - Mega Drive - Genesis"),
        ("psp", "Sony - PlayStation Portable"),
    ];
    let ghost ev = Seq::new(extra@.len(), |k: int| (extra@[k].0@, extra@[k].1@));
    assert(ev =~= extra_artwork_table());
    let mut j: usize = 0;
    while j < extra.len()
        invariant
            j <= extra@.len(),
            ev == Seq::new(extra@.len(), |k: int| (extra@[k].0@, extra@[k].1@)),
            ev == extra_artwork_table(),
            kv@ == key@,
            normalize_key_seq(system@) == Some(key@),
            artwork_index_from(key@, 0) is None,
            extra_artwork_index_from(key@, 0) == extra_artwork_index_from(key@, j as int),
        decreases extra.len() - j,
    {
        let (k, catalog) = extra[j];
        assert(ev[j as int] == (k@, catalog@));
        if chars_eq(&chars_of(k), &kv) {
            return Some(catalog);
        }
        j += 1;
    }
    None
}

} // verus!
