//! The interface's two languages, French and English, side by side: every
//! fixed string has both spellings, and sentences with a hole are functions
//! that give each language its own word order.

use crate::text::{chars_of, push_str, trim_chars, trimmed};
use vstd::prelude::*;

verus! {

/// The languages the interface speaks.
#[derive(Debug, Clone, Copy, PartialEq, Eq, Structural)]
pub enum Lang {
    Fr,
    En,
}

impl Default for Lang {
    fn default() -> (r: Lang)
        ensures
            r == Lang::Fr,
    {
        Lang::Fr
    }
}

/// The preference spelling of a language.
pub open spec fn pref_text(l: Lang) -> Seq<char> {
    match l {
        Lang::Fr => "fr"@,
        Lang::En => "en"@,
    }
}

/// The language a stored preference names, if any.
pub open spec fn pref_lang(s: Seq<char>) -> Option<Lang> {
    if s == "fr"@ {
        Some(Lang::Fr)
    } else if s == "en"@ {
        Some(Lang::En)
    } else {
        None
    }
}

/// A tag separator: `-`, `_` or `.`.
pub open spec fn is_tag_sep(c: char) -> bool {
    c == '-' || c == '_' || c == '.'
}

/// The part of a tag before its first separator.
pub open spec fn tag_head(s: Seq<char>) -> Seq<char>
    decreases s.len(),
{
    if s.len() == 0 || is_tag_sep(s[0]) {
        Seq::empty()
    } else {
        seq![s[0]] + tag_head(s.drop_first())
    }
}

/// ASCII letters lowered, everything else unchanged.
pub open spec fn ascii_lower(c: char) -> char {
    if 'A' <= c <= 'Z' {
        ((c as u32) + 32) as char
    } else {
        c
    }
}

/// The language a tag names: French when its primary subtag, trimmed and
/// lowered, is `fr`; English for anything else.
pub open spec fn tag_lang(tag: Seq<char>) -> Lang {
    if trimmed(tag_head(tag)).map_values(|c: char| ascii_lower(c)) == "fr"@ {
        Lang::Fr
    } else {
        Lang::En
    }
}

impl Lang {
    /// Value stored in the preferences.
    pub fn as_pref(self) -> (r: &'static str)
        ensures
            r@ == pref_text(self),
    {
        match self {
            Lang::Fr => "fr",
            Lang::En => "en",
        }
    }

    /// Parse a stored preference; unknown text is `None` (follow the system).
    pub fn from_pref(s: &str) -> (r: Option<Lang>)
        ensures
            r == pref_lang(s@),
    {
        proof {
            reveal_strlit("fr");
            reveal_strlit("en");
            assert("fr"@[0] != "en"@[0]);
        }
        if crate::text::str_eq(s, "fr") {
            Some(Lang::Fr)
        } else if crate::text::str_eq(s, "en") {
            Some(Lang::En)
        } else {
            None
        }
    }

    /// How this language names itself.
    pub fn endonym(self) -> (r: &'static str)
        ensures
            r@ == (match self {
                Lang::Fr => "Français"@,
                Lang::En => "English"@,
            }),
    {
        match self {
            Lang::Fr => "Français",
            Lang::En => "English",
        }
    }

    /// Language matching an IETF-ish tag (`fr`, `fr-CA`, `fr_FR`, `en-GB`).
    pub fn from_tag(tag: &str) -> (r: Lang)
        ensures
            r == tag_lang(tag@),
    {
        let v = chars_of(tag);
        let mut head: Vec<char> = Vec::new();
        let mut i: usize = 0;
        while i < v.len() && !(v[i] == '-' || v[i] == '_' || v[i] == '.')
            invariant
                v@ == tag@,
                i <= v@.len(),
                forall|k: int| 0 <= k < i ==> !is_tag_sep(#[trigger] v@[k]),
                head@ == v@.take(i as int),
            decreases v@.len() - i,
        {
            head.push(v[i]);
            i = i + 1;
            assert(head@ =~= v@.take(i as int));
        }
        proof {
            lemma_tag_head(v@, i as int);
        }
        let t = trim_chars(head.as_slice());
        proof {
            reveal_strlit("fr");
        }
        let fr = t.len() == 2 && (t[0] == 'f' || t[0] == 'F') && (t[1] == 'r' || t[1] == 'R');
        proof {
            assert(t@ == trimmed(tag_head(tag@)));
            let low = t@.map_values(|c: char| ascii_lower(c));
            assert("fr"@.len() == 2 && "fr"@[0] == 'f' && "fr"@[1] == 'r');
            if fr {
                assert(ascii_lower(t@[0]) == 'f');
                assert(ascii_lower(t@[1]) == 'r');
                assert(low =~= "fr"@);
            } else if low == "fr"@ {
                assert(low[0] == 'f' && low[1] == 'r');
                assert(ascii_lower(t@[0]) == 'f');
                assert(ascii_lower(t@[1]) == 'r');
            }
        }
        if fr {
            Lang::Fr
        } else {
            Lang::En
        }
    }
}

/// The head of a tag is the prefix before the first separator.
proof fn lemma_tag_head(s: Seq<char>, i: int)
    requires
        0 <= i <= s.len(),
        forall|k: int| 0 <= k < i ==> !is_tag_sep(#[trigger] s[k]),
        i == s.len() || is_tag_sep(s[i]),
    ensures
        tag_head(s) == s.take(i),
    decreases i,
{
    if i == 0 {
        assert(s.take(0) =~= Seq::<char>::empty());
    } else {
        let t = s.drop_first();
        assert forall|k: int| 0 <= k < i - 1 implies !is_tag_sep(#[trigger] t[k]) by {
            assert(t[k] == s[k + 1]);
        }
        lemma_tag_head(t, i - 1);
        assert(s.take(i) =~= seq![s[0]] + t.take(i - 1));
    }
}

/// Every fixed string the interface shows.
#[derive(Debug, Clone, Copy, PartialEq, Eq, Structural)]
pub enum Msg {
    AppTagline,
    Back,
    Quit,
    Cancel,
    Close,
    TabLibrary,
    TabFavorites,
    TabRecent,
    TabSettings,
    SearchPlaceholder,
    SortBy,
    SortTitle,
    SortRecent,
    Refresh,
    ChooseFolder,
    AddGame,
    AddGameHint,
    Play,
    AddToFavorites,
    Favorite,
    NoPicture,
    PictureRunning,
    ScanningFolder,
    FileMissing,
    RelocateGame,
    RelocateHint,
    ForgetGame,
    ForgetHint,
    SectionDisplay,
    SectionAudio,
    SectionEmulation,
    SectionInputs,
    SectionFolders,
    SectionAbout,
    Language,
    WindowSize,
    NativeSize,
    Filter,
    FilterNone,
    FilterSmooth,
    FilterCrt,
    Aspect,
    AspectPixel,
    AspectTv,
    Fullscreen,
    FrameCounter,
    RebindHint,
    ResetInputs,
    ColumnButton,
    ColumnKeyboard,
    ColumnPad,
    PadArtHint,
    AboutBlurb,
    Guide,
    AppFiles,
    AppFilesHint,
    NoneFeminine,
    NeverPlayed,
    LessThanAMinute,
    FactGenre,
    FactDeveloper,
    FactPublisher,
    FactPlayers,
    FactRelease,
    FactFranchise,
    FactEsrb,
}

/// The French text of a message.
pub open spec fn msg_fr(m: Msg) -> Seq<char> {
    match m {
        Msg::AppTagline => "Émulateur Super Nintendo"@,
        Msg::Back => "Retour"@,
        Msg::Quit => "Quitter"@,
        Msg::Cancel => "Annuler"@,
        Msg::Close => "Fermer"@,
        Msg::TabLibrary => "Bibliothèque"@,
        Msg::TabFavorites => "Favoris"@,
        Msg::TabRecent => "Récents"@,
        Msg::TabSettings => "Réglages"@,
        Msg::SearchPlaceholder => "titre ou nom de fichier"@,
        Msg::SortBy => "Trier par"@,
        Msg::SortTitle => "Titre"@,
        Msg::SortRecent => "Récemment joué"@,
        Msg::Refresh => "Actualiser"@,
        Msg::ChooseFolder => "Dossier…"@,
        Msg::AddGame => "Ajouter un jeu…"@,
        Msg::AddGameHint => "Ajouter un jeu situé hors du dossier — ou déposez son fichier sur la fenêtre"@,
        Msg::Play => "Jouer"@,
        Msg::AddToFavorites => "Ajouter aux favoris"@,
        Msg::Favorite => "Favori"@,
        Msg::NoPicture => "pas de miniature"@,
        Msg::PictureRunning => "miniature en cours…"@,
        Msg::ScanningFolder => "Analyse du dossier…"@,
        Msg::FileMissing => "Fichier introuvable"@,
        Msg::RelocateGame => "Retrouver le fichier…"@,
        Msg::RelocateHint => "Le désigner à son nouvel emplacement, ou déposer le fichier sur la fenêtre"@,
        Msg::ForgetGame => "Retirer de la bibliothèque"@,
        Msg::ForgetHint => "Le fichier lui-même n'est pas supprimé"@,
        Msg::SectionDisplay => "Affichage"@,
        Msg::SectionAudio => "Audio"@,
        Msg::SectionEmulation => "Émulation"@,
        Msg::SectionInputs => "Entrées"@,
        Msg::SectionFolders => "Dossiers"@,
        Msg::SectionAbout => "À propos"@,
        Msg::Language => "Langue"@,
        Msg::WindowSize => "Taille de la fenêtre"@,
        Msg::NativeSize => "Taille native (256 × 224)"@,
        Msg::Filter => "Filtre"@,
        Msg::FilterNone => "Aucun"@,
        Msg::FilterSmooth => "Lissé"@,
        Msg::FilterCrt => "CRT"@,
        Msg::Aspect => "Ratio"@,
        Msg::AspectPixel => "Pixel-parfait (1:1)"@,
        Msg::AspectTv => "TV authentique (8:7)"@,
        Msg::Fullscreen => "Plein écran"@,
        Msg::FrameCounter => "Compteur d'images"@,
        Msg::RebindHint => "Cliquez sur une case — ou sur le bouton dessiné — pour la réaffecter."@,
        Msg::ResetInputs => "Rétablir les entrées par défaut"@,
        Msg::ColumnButton => "Bouton"@,
        Msg::ColumnKeyboard => "Clavier"@,
        Msg::ColumnPad => "Manette"@,
        Msg::PadArtHint => "Les boutons pressés s'allument : de quoi vérifier une manette sans lancer de jeu."@,
        Msg::AboutBlurb => "Émulateur Super Nintendo écrit en Rust : cœur d'émulation sans entrées/sorties, interface séparée."@,
        Msg::Guide => "Guide pédagogique"@,
        Msg::AppFiles => "Fichiers de l'application"@,
        Msg::AppFilesHint => "Préférences, cache de la bibliothèque et miniatures ; supprimables sans rien perdre."@,
        Msg::NoneFeminine => "Aucune"@,
        Msg::NeverPlayed => "Jamais joué"@,
        Msg::LessThanAMinute => "moins d'une minute"@,
        Msg::FactGenre => "Genre"@,
        Msg::FactDeveloper => "Développeur"@,
        Msg::FactPublisher => "Éditeur"@,
        Msg::FactPlayers => "Joueurs"@,
        Msg::FactRelease => "Sortie"@,
        Msg::FactFranchise => "Franchise"@,
        Msg::FactEsrb => "Classification"@,
    }
}

/// The English text of a message.
pub open spec fn msg_en(m: Msg) -> Seq<char> {
    match m {
        Msg::AppTagline => "Super Nintendo emulator"@,
        Msg::Back => "Back"@,
        Msg::Quit => "Quit"@,
        Msg::Cancel => "Cancel"@,
        Msg::Close => "Close"@,
        Msg::TabLibrary => "Library"@,
        Msg::TabFavorites => "Favourites"@,
        Msg::TabRecent => "Recent"@,
        Msg::TabSettings => "Settings"@,
        Msg::SearchPlaceholder => "title or file name"@,
        Msg::SortBy => "Sort by"@,
        Msg::SortTitle => "Title"@,
        Msg::SortRecent => "Recently played"@,
        Msg::Refresh => "Refresh"@,
        Msg::ChooseFolder => "Folder…"@,
        Msg::AddGame => "Add a game…"@,
        Msg::AddGameHint => "Add a game from outside the folder — or drop its file on the window"@,
        Msg::Play => "Play"@,
        Msg::AddToFavorites => "Add to favourites"@,
        Msg::Favorite => "Favourite"@,
        Msg::NoPicture => "no thumbnail"@,
        Msg::PictureRunning => "building thumbnail…"@,
        Msg::ScanningFolder => "Scanning the folder…"@,
        Msg::FileMissing => "File not found"@,
        Msg::RelocateGame => "Locate the file…"@,
        Msg::RelocateHint => "Point at its new location, or drop the file on the window"@,
        Msg::ForgetGame => "Remove from the library"@,
        Msg::ForgetHint => "The file itself is not deleted"@,
        Msg::SectionDisplay => "Display"@,
        Msg::SectionAudio => "Audio"@,
        Msg::SectionEmulation => "Emulation"@,
        Msg::SectionInputs => "Controls"@,
        Msg::SectionFolders => "Folders"@,
        Msg::SectionAbout => "About"@,
        Msg::Language => "Language"@,
        Msg::WindowSize => "Window size"@,
        Msg::NativeSize => "Native size (256 × 224)"@,
        Msg::Filter => "Filter"@,
        Msg::FilterNone => "None"@,
        Msg::FilterSmooth => "Smooth"@,
        Msg::FilterCrt => "CRT"@,
        Msg::Aspect => "Aspect"@,
        Msg::AspectPixel => "Pixel-perfect (1:1)"@,
        Msg::AspectTv => "Authentic TV (8:7)"@,
        Msg::Fullscreen => "Full screen"@,
        Msg::FrameCounter => "Frame counter"@,
        Msg::RebindHint => "Click a cell — or a button on the drawing — to reassign it."@,
        Msg::ResetInputs => "Restore the default controls"@,
        Msg::ColumnButton => "Button"@,
        Msg::ColumnKeyboard => "Keyboard"@,
        Msg::ColumnPad => "Controller"@,
        Msg::PadArtHint => "Pressed buttons light up: a way to check a controller without starting a game."@,
        Msg::AboutBlurb => "A Super Nintendo emulator written in Rust: an I/O-free emulation core, with the interface kept apart."@,
        Msg::Guide => "Learning guide"@,
        Msg::AppFiles => "Application files"@,
        Msg::AppFilesHint => "Preferences, library cache and thumbnails; safe to delete, nothing is lost."@,
        Msg::NoneFeminine => "None"@,
        Msg::NeverPlayed => "Never played"@,
        Msg::LessThanAMinute => "less than a minute"@,
        Msg::FactGenre => "Genre"@,
        Msg::FactDeveloper => "Developer"@,
        Msg::FactPublisher => "Publisher"@,
        Msg::FactPlayers => "Players"@,
        Msg::FactRelease => "Release"@,
        Msg::FactFranchise => "Franchise"@,
        Msg::FactEsrb => "ESRB rating"@,
    }
}

/// The text of a message in a language.
pub open spec fn msg_text(m: Msg, lang: Lang) -> Seq<char> {
    match lang {
        Lang::Fr => msg_fr(m),
        Lang::En => msg_en(m),
    }
}

impl Msg {
    /// The message in `lang`.
    pub fn text(self, lang: Lang) -> (r: &'static str)
        ensures
            r@ == msg_text(self, lang),
    {
        match lang {
            Lang::Fr => self.fr(),
            Lang::En => self.en(),
        }
    }

    fn fr(self) -> (r: &'static str)
        ensures
            r@ == msg_fr(self),
    {
        match self {
            Msg::AppTagline => "Émulateur Super Nintendo",
            Msg::Back => "Retour",
            Msg::Quit => "Quitter",
            Msg::Cancel => "Annuler",
            Msg::Close => "Fermer",
            Msg::TabLibrary => "Bibliothèque",
            Msg::TabFavorites => "Favoris",
            Msg::TabRecent => "Récents",
            Msg::TabSettings => "Réglages",
            Msg::SearchPlaceholder => "titre ou nom de fichier",
            Msg::SortBy => "Trier par",
            Msg::SortTitle => "Titre",
            Msg::SortRecent => "Récemment joué",
            Msg::Refresh => "Actualiser",
            Msg::ChooseFolder => "Dossier…",
            Msg::AddGame => "Ajouter un jeu…",
            Msg::AddGameHint => "Ajouter un jeu situé hors du dossier — ou déposez son fichier sur la fenêtre",
            Msg::Play => "Jouer",
            Msg::AddToFavorites => "Ajouter aux favoris",
            Msg::Favorite => "Favori",
            Msg::NoPicture => "pas de miniature",
            Msg::PictureRunning => "miniature en cours…",
            Msg::ScanningFolder => "Analyse du dossier…",
            Msg::FileMissing => "Fichier introuvable",
            Msg::RelocateGame => "Retrouver le fichier…",
            Msg::RelocateHint => "Le désigner à son nouvel emplacement, ou déposer le fichier sur la fenêtre",
            Msg::ForgetGame => "Retirer de la bibliothèque",
            Msg::ForgetHint => "Le fichier lui-même n'est pas supprimé",
            Msg::SectionDisplay => "Affichage",
            Msg::SectionAudio => "Audio",
            Msg::SectionEmulation => "Émulation",
            Msg::SectionInputs => "Entrées",
            Msg::SectionFolders => "Dossiers",
            Msg::SectionAbout => "À propos",
            Msg::Language => "Langue",
            Msg::WindowSize => "Taille de la fenêtre",
            Msg::NativeSize => "Taille native (256 × 224)",
            Msg::Filter => "Filtre",
            Msg::FilterNone => "Aucun",
            Msg::FilterSmooth => "Lissé",
            Msg::FilterCrt => "CRT",
            Msg::Aspect => "Ratio",
            Msg::AspectPixel => "Pixel-parfait (1:1)",
            Msg::AspectTv => "TV authentique (8:7)",
            Msg::Fullscreen => "Plein écran",
            Msg::FrameCounter => "Compteur d'images",
            Msg::RebindHint => "Cliquez sur une case — ou sur le bouton dessiné — pour la réaffecter.",
            Msg::ResetInputs => "Rétablir les entrées par défaut",
            Msg::ColumnButton => "Bouton",
            Msg::ColumnKeyboard => "Clavier",
            Msg::ColumnPad => "Manette",
            Msg::PadArtHint => "Les boutons pressés s'allument : de quoi vérifier une manette sans lancer de jeu.",
            Msg::AboutBlurb => "Émulateur Super Nintendo écrit en Rust : cœur d'émulation sans entrées/sorties, interface séparée.",
            Msg::Guide => "Guide pédagogique",
            Msg::AppFiles => "Fichiers de l'application",
            Msg::AppFilesHint => "Préférences, cache de la bibliothèque et miniatures ; supprimables sans rien perdre.",
            Msg::NoneFeminine => "Aucune",
            Msg::NeverPlayed => "Jamais joué",
            Msg::LessThanAMinute => "moins d'une minute",
            Msg::FactGenre => "Genre",
            Msg::FactDeveloper => "Développeur",
            Msg::FactPublisher => "Éditeur",
            Msg::FactPlayers => "Joueurs",
            Msg::FactRelease => "Sortie",
            Msg::FactFranchise => "Franchise",
            Msg::FactEsrb => "Classification",
        }
    }

    fn en(self) -> (r: &'static str)
        ensures
            r@ == msg_en(self),
    {
        match self {
            Msg::AppTagline => "Super Nintendo emulator",
            Msg::Back => "Back",
            Msg::Quit => "Quit",
            Msg::Cancel => "Cancel",
            Msg::Close => "Close",
            Msg::TabLibrary => "Library",
            Msg::TabFavorites => "Favourites",
            Msg::TabRecent => "Recent",
            Msg::TabSettings => "Settings",
            Msg::SearchPlaceholder => "title or file name",
            Msg::SortBy => "Sort by",
            Msg::SortTitle => "Title",
            Msg::SortRecent => "Recently played",
            Msg::Refresh => "Refresh",
            Msg::ChooseFolder => "Folder…",
            Msg::AddGame => "Add a game…",
            Msg::AddGameHint => "Add a game from outside the folder — or drop its file on the window",
            Msg::Play => "Play",
            Msg::AddToFavorites => "Add to favourites",
            Msg::Favorite => "Favourite",
            Msg::NoPicture => "no thumbnail",
            Msg::PictureRunning => "building thumbnail…",
            Msg::ScanningFolder => "Scanning the folder…",
            Msg::FileMissing => "File not found",
            Msg::RelocateGame => "Locate the file…",
            Msg::RelocateHint => "Point at its new location, or drop the file on the window",
            Msg::ForgetGame => "Remove from the library",
            Msg::ForgetHint => "The file itself is not deleted",
            Msg::SectionDisplay => "Display",
            Msg::SectionAudio => "Audio",
            Msg::SectionEmulation => "Emulation",
            Msg::SectionInputs => "Controls",
            Msg::SectionFolders => "Folders",
            Msg::SectionAbout => "About",
            Msg::Language => "Language",
            Msg::WindowSize => "Window size",
            Msg::NativeSize => "Native size (256 × 224)",
            Msg::Filter => "Filter",
            Msg::FilterNone => "None",
            Msg::FilterSmooth => "Smooth",
            Msg::FilterCrt => "CRT",
            Msg::Aspect => "Aspect",
            Msg::AspectPixel => "Pixel-perfect (1:1)",
            Msg::AspectTv => "Authentic TV (8:7)",
            Msg::Fullscreen => "Full screen",
            Msg::FrameCounter => "Frame counter",
            Msg::RebindHint => "Click a cell — or a button on the drawing — to reassign it.",
            Msg::ResetInputs => "Restore the default controls",
            Msg::ColumnButton => "Button",
            Msg::ColumnKeyboard => "Keyboard",
            Msg::ColumnPad => "Controller",
            Msg::PadArtHint => "Pressed buttons light up: a way to check a controller without starting a game.",
            Msg::AboutBlurb => "A Super Nintendo emulator written in Rust: an I/O-free emulation core, with the interface kept apart.",
            Msg::Guide => "Learning guide",
            Msg::AppFiles => "Application files",
            Msg::AppFilesHint => "Preferences, library cache and thumbnails; safe to delete, nothing is lost.",
            Msg::NoneFeminine => "None",
            Msg::NeverPlayed => "Never played",
            Msg::LessThanAMinute => "less than a minute",
            Msg::FactGenre => "Genre",
            Msg::FactDeveloper => "Developer",
            Msg::FactPublisher => "Publisher",
            Msg::FactPlayers => "Players",
            Msg::FactRelease => "Release",
            Msg::FactFranchise => "Franchise",
            Msg::FactEsrb => "ESRB rating",
        }
    }

    /// Every message, in declaration order.
    pub fn all() -> (r: Vec<Msg>)
        ensures
            r@.len() == 66,
            forall|m: Msg| r@.contains(m),
    {
        let r = vec![Msg::AppTagline, Msg::Back, Msg::Quit, Msg::Cancel, Msg::Close, Msg::TabLibrary, Msg::TabFavorites, Msg::TabRecent, Msg::TabSettings, Msg::SearchPlaceholder, Msg::SortBy, Msg::SortTitle, Msg::SortRecent, Msg::Refresh, Msg::ChooseFolder, Msg::AddGame, Msg::AddGameHint, Msg::Play, Msg::AddToFavorites, Msg::Favorite, Msg::NoPicture, Msg::PictureRunning, Msg::ScanningFolder, Msg::FileMissing, Msg::RelocateGame, Msg::RelocateHint, Msg::ForgetGame, Msg::ForgetHint, Msg::SectionDisplay, Msg::SectionAudio, Msg::SectionEmulation, Msg::SectionInputs, Msg::SectionFolders, Msg::SectionAbout, Msg::Language, Msg::WindowSize, Msg::NativeSize, Msg::Filter, Msg::FilterNone, Msg::FilterSmooth, Msg::FilterCrt, Msg::Aspect, Msg::AspectPixel, Msg::AspectTv, Msg::Fullscreen, Msg::FrameCounter, Msg::RebindHint, Msg::ResetInputs, Msg::ColumnButton, Msg::ColumnKeyboard, Msg::ColumnPad, Msg::PadArtHint, Msg::AboutBlurb, Msg::Guide, Msg::AppFiles, Msg::AppFilesHint, Msg::NoneFeminine, Msg::NeverPlayed, Msg::LessThanAMinute, Msg::FactGenre, Msg::FactDeveloper, Msg::FactPublisher, Msg::FactPlayers, Msg::FactRelease, Msg::FactFranchise, Msg::FactEsrb];
        proof {
            assert forall|m: Msg| r@.contains(m) by {
                match m {
                    Msg::AppTagline => { assert(r@[0] == m); }
                    Msg::Back => { assert(r@[1] == m); }
                    Msg::Quit => { assert(r@[2] == m); }
                    Msg::Cancel => { assert(r@[3] == m); }
                    Msg::Close => { assert(r@[4] == m); }
                    Msg::TabLibrary => { assert(r@[5] == m); }
                    Msg::TabFavorites => { assert(r@[6] == m); }
                    Msg::TabRecent => { assert(r@[7] == m); }
                    Msg::TabSettings => { assert(r@[8] == m); }
                    Msg::SearchPlaceholder => { assert(r@[9] == m); }
                    Msg::SortBy => { assert(r@[10] == m); }
                    Msg::SortTitle => { assert(r@[11] == m); }
                    Msg::SortRecent => { assert(r@[12] == m); }
                    Msg::Refresh => { assert(r@[13] == m); }
                    Msg::ChooseFolder => { assert(r@[14] == m); }
                    Msg::AddGame => { assert(r@[15] == m); }
                    Msg::AddGameHint => { assert(r@[16] == m); }
                    Msg::Play => { assert(r@[17] == m); }
                    Msg::AddToFavorites => { assert(r@[18] == m); }
                    Msg::Favorite => { assert(r@[19] == m); }
                    Msg::NoPicture => { assert(r@[20] == m); }
                    Msg::PictureRunning => { assert(r@[21] == m); }
                    Msg::ScanningFolder => { assert(r@[22] == m); }
                    Msg::FileMissing => { assert(r@[23] == m); }
                    Msg::RelocateGame => { assert(r@[24] == m); }
                    Msg::RelocateHint => { assert(r@[25] == m); }
                    Msg::ForgetGame => { assert(r@[26] == m); }
                    Msg::ForgetHint => { assert(r@[27] == m); }
                    Msg::SectionDisplay => { assert(r@[28] == m); }
                    Msg::SectionAudio => { assert(r@[29] == m); }
                    Msg::SectionEmulation => { assert(r@[30] == m); }
                    Msg::SectionInputs => { assert(r@[31] == m); }
                    Msg::SectionFolders => { assert(r@[32] == m); }
                    Msg::SectionAbout => { assert(r@[33] == m); }
                    Msg::Language => { assert(r@[34] == m); }
                    Msg::WindowSize => { assert(r@[35] == m); }
                    Msg::NativeSize => { assert(r@[36] == m); }
                    Msg::Filter => { assert(r@[37] == m); }
                    Msg::FilterNone => { assert(r@[38] == m); }
                    Msg::FilterSmooth => { assert(r@[39] == m); }
                    Msg::FilterCrt => { assert(r@[40] == m); }
                    Msg::Aspect => { assert(r@[41] == m); }
                    Msg::AspectPixel => { assert(r@[42] == m); }
                    Msg::AspectTv => { assert(r@[43] == m); }
                    Msg::Fullscreen => { assert(r@[44] == m); }
                    Msg::FrameCounter => { assert(r@[45] == m); }
                    Msg::RebindHint => { assert(r@[46] == m); }
                    Msg::ResetInputs => { assert(r@[47] == m); }
                    Msg::ColumnButton => { assert(r@[48] == m); }
                    Msg::ColumnKeyboard => { assert(r@[49] == m); }
                    Msg::ColumnPad => { assert(r@[50] == m); }
                    Msg::PadArtHint => { assert(r@[51] == m); }
                    Msg::AboutBlurb => { assert(r@[52] == m); }
                    Msg::Guide => { assert(r@[53] == m); }
                    Msg::AppFiles => { assert(r@[54] == m); }
                    Msg::AppFilesHint => { assert(r@[55] == m); }
                    Msg::NoneFeminine => { assert(r@[56] == m); }
                    Msg::NeverPlayed => { assert(r@[57] == m); }
                    Msg::LessThanAMinute => { assert(r@[58] == m); }
                    Msg::FactGenre => { assert(r@[59] == m); }
                    Msg::FactDeveloper => { assert(r@[60] == m); }
                    Msg::FactPublisher => { assert(r@[61] == m); }
                    Msg::FactPlayers => { assert(r@[62] == m); }
                    Msg::FactRelease => { assert(r@[63] == m); }
                    Msg::FactFranchise => { assert(r@[64] == m); }
                    Msg::FactEsrb => { assert(r@[65] == m); }
                }
            }
        }
        r
    }
}

/// The footer's line about what Escape does.
pub fn escape_hint(lang: Lang, has_session: bool) -> (r: &'static str)
    ensures
        r@ == (match (lang, has_session) {
            (Lang::Fr, true) => "Échap : revenir au jeu · O : ouvrir une ROM · , : réglages"@,
            (Lang::Fr, false) => "O : ouvrir une ROM · , : réglages"@,
            (Lang::En, true) => "Esc: back to the game · O: open a ROM · ,: settings"@,
            (Lang::En, false) => "O: open a ROM · ,: settings"@,
        }),
{
    match (lang, has_session) {
        (Lang::Fr, true) => "Échap : revenir au jeu · O : ouvrir une ROM · , : réglages",
        (Lang::Fr, false) => "O : ouvrir une ROM · , : réglages",
        (Lang::En, true) => "Esc: back to the game · O: open a ROM · ,: settings",
        (Lang::En, false) => "O: open a ROM · ,: settings",
    }
}

/// `a`, the hole, then `b`.
fn around(a: &str, hole: &str, b: &str) -> (r: String)
    ensures
        r@ == a@ + hole@ + b@,
{
    let mut r = String::new();
    push_str(&mut r, a);
    push_str(&mut r, hole);
    push_str(&mut r, b);
    r
}

/// Waiting for a key or a pad button to bind to `button`; each language
/// keeps its own word order.
pub fn press_a_key_for(lang: Lang, button: &str) -> (r: String)
    ensures
        r@ == (match lang {
            Lang::Fr => "Appuyez sur une touche pour "@ + button@ + " — Échap pour annuler."@,
            Lang::En => "Press a key for "@ + button@ + " — Esc to cancel."@,
        }),
{
    match lang {
        Lang::Fr => around("Appuyez sur une touche pour ", button, " — Échap pour annuler."),
        Lang::En => around("Press a key for ", button, " — Esc to cancel."),
    }
}

/// A ROM that could not be read, named by its file.
pub fn cannot_load(lang: Lang, name: &str, error: &str) -> (r: String)
    ensures
        r@ == (match lang {
            Lang::Fr => "Impossible de charger "@ + name@ + " : "@ + error@,
            Lang::En => "Could not load "@ + name@ + ": "@ + error@,
        }),
{
    let mut r = match lang {
        Lang::Fr => around("Impossible de charger ", name, " : "),
        Lang::En => around("Could not load ", name, ": "),
    };
    push_str(&mut r, error);
    r
}

/// A file the player pointed at that is not a cartridge at all.
pub fn not_a_rom(lang: Lang, name: &str) -> (r: String)
    ensures
        r@ == (match lang {
            Lang::Fr => name@ + " n'est pas une ROM Super Nintendo (.sfc, .smc ou .zip)."@,
            Lang::En => name@ + " is not a Super Nintendo ROM (.sfc, .smc or .zip)."@,
        }),
{
    proof {
        reveal_strlit("");
        assert(""@ + name@ =~= name@);
    }
    match lang {
        Lang::Fr => around("", name, " n'est pas une ROM Super Nintendo (.sfc, .smc ou .zip)."),
        Lang::En => around("", name, " is not a Super Nintendo ROM (.sfc, .smc or .zip)."),
    }
}

/// The label of a save state: the automatic one, or a numbered slot.
pub open spec fn spec_slot_label(lang: Lang, slot: Option<u8>) -> Seq<char> {
    match slot {
        None => match lang {
            Lang::Fr => "Reprise"@,
            Lang::En => "Resume"@,
        },
        Some(n) => "Slot "@ + crate::text::dec(n as nat),
    }
}

/// The label of a save state in the game sheet.
pub fn slot_label(lang: Lang, slot: Option<u8>) -> (r: String)
    ensures
        r@ == spec_slot_label(lang, slot),
{
    match slot {
        None => match lang {
            Lang::Fr => String::from_str("Reprise"),
            Lang::En => String::from_str("Resume"),
        },
        Some(n) => {
            let mut r = String::from_str("Slot ");
            let d = crate::text::decimal(n as u64);
            crate::text::push_chars(&mut r, d.as_slice());
            r
        },
    }
}

/// The overlay's notice when a controller is plugged in or out: uppercase
/// and unaccented, as the overlay font draws nothing else.
pub open spec fn spec_status_pad(lang: Lang, player: nat, connected: bool) -> Seq<char> {
    match lang {
        Lang::Fr => "MANETTE "@ + crate::text::dec(player) + (if connected { " CONNECTEE"@ } else { " DECONNECTEE"@ }),
        Lang::En => "CONTROLLER "@ + crate::text::dec(player) + (if connected { " CONNECTED"@ } else { " DISCONNECTED"@ }),
    }
}

/// The overlay's notice for the controller of `player` (counted from 1).
pub fn status_pad(lang: Lang, player: usize, connected: bool) -> (r: String)
    ensures
        r@ == spec_status_pad(lang, player as nat, connected),
{
    let d = crate::text::decimal(player as u64);
    let mut r = match lang {
        Lang::Fr => String::from_str("MANETTE "),
        Lang::En => String::from_str("CONTROLLER "),
    };
    crate::text::push_chars(&mut r, d.as_slice());
    let tail = match lang {
        Lang::Fr => if connected { " CONNECTEE" } else { " DECONNECTEE" },
        Lang::En => if connected { " CONNECTED" } else { " DISCONNECTED" },
    };
    push_str(&mut r, tail);
    r
}

/// A stored language reads back as itself: parsing what `as_pref` writes
/// gives the same language.
pub proof fn law_pref_round_trip(l: Lang)
    ensures
        pref_lang(pref_text(l)) == Some(l),
{
    reveal_strlit("fr");
    reveal_strlit("en");
    assert("fr"@[0] != "en"@[0]);
}

} // verus!
