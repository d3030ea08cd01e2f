//! The wallpaper of the day of Bing.

use crate::config::AppConfig;
use crate::error::{ErrorView, WallpaperError};
use crate::form::{append_pair, with_pair};
use crate::model::{CandidateView, WallpaperCandidate, WallpaperSource, copy_texts};
use crate::number::{all_digits, i32_text, is_digit, signed_decimal};
use crate::path::{extension, extension_of, file_name, file_name_of};
use crate::sources::{Source, SourceSettings, pick_first};
use crate::text::{
    cut, from_first, letters, list_contains, opt_text, split_once, stripped, tail_from, text_of,
    texts, trim,
};
use crate::xml::{
    XmlNode, first_text, node_views, opt_nodes, parse_nodes, text_named, utf8_text, xml_nodes,
};
use vstd::prelude::*;
use vstd::utf8::{decode_utf8, valid_utf8};

verus! {

// ------------------------------------------------------------------------------------------
// Settings
// ------------------------------------------------------------------------------------------

/// How Bing is reached, for which countries, and in which resolutions.
#[derive(Debug)]
pub struct BingSettings {
    pub host: String,
    pub countries: Vec<String>,
    /// The resolutions in the order in which they are tried.
    pub resolutions: Vec<String>,
    /// How many days back the wallpaper is taken from.
    pub day: i32,
}

/// The section of the configuration for Bing.
#[derive(Debug)]
pub struct BingConfig {
    pub country: Option<String>,
    pub countries: Option<Vec<String>>,
    pub resolutions: Option<Vec<String>>,
}

/// The resolutions that are tried where none are configured.
pub open spec fn default_resolutions() -> Seq<Seq<char>> {
    seq!["1920x1200"@, "1920x1080"@, "1024x768"@, "1280x720"@, "1366x768"@, "UHD"@]
}

/// The resolutions that are tried where none are configured.
pub fn default_resolution_list() -> (r: Vec<String>)
    ensures
        texts(r@) == default_resolutions(),
{
    let r = vec![
        "1920x1200".to_string(),
        "1920x1080".to_string(),
        "1024x768".to_string(),
        "1280x720".to_string(),
        "1366x768".to_string(),
        "UHD".to_string(),
    ];
    assert(texts(r@) =~= default_resolutions());
    r
}

/// The countries that `config` names: the list of the section, if it has entries, or else the
/// country of the section, or else the country at the top level, or else `en-US`.
pub open spec fn named_countries(config: Option<&AppConfig>) -> Seq<Seq<char>> {
    match config {
        Some(cfg) => {
            let (list, one) = match cfg.bing {
                Some(b) => (b.countries, b.country),
                None => (None, None),
            };
            match list {
                Some(l) if l@.len() > 0 => texts(l@),
                _ => match one {
                    Some(c) => seq![c@],
                    None => match cfg.country {
                        Some(c) => seq![c@],
                        None => seq!["en-US"@],
                    },
                },
            }
        },
        None => seq!["en-US"@],
    }
}

/// `s` with only the first of equal members.
pub open spec fn distinct(s: Seq<Seq<char>>) -> Seq<Seq<char>>
    decreases s.len(),
{
    if s.len() == 0 {
        s
    } else {
        let rest = distinct(s.drop_last());
        if rest.contains(s.last()) {
            rest
        } else {
            rest.push(s.last())
        }
    }
}

/// The members of `s` that are not blank, trimmed.
pub open spec fn filled_in(s: Seq<Seq<char>>) -> Seq<Seq<char>> {
    s.map_values(|t: Seq<char>| stripped(t)).filter(|t: Seq<char>| t.len() > 0)
}

/// The countries to ask for.
pub open spec fn countries_of(config: Option<&AppConfig>) -> Seq<Seq<char>> {
    let kept = distinct(filled_in(named_countries(config)));
    if kept.len() == 0 {
        seq!["en-US"@]
    } else {
        kept
    }
}

/// The resolutions to try: those of the section, or else those at the top level, or else the
/// default ones.
pub open spec fn resolutions_of(config: Option<&AppConfig>) -> Seq<Seq<char>> {
    match config {
        Some(cfg) => {
            let section = match cfg.bing {
                Some(b) => b.resolutions,
                None => None,
            };
            match section {
                Some(l) => texts(l@),
                None => match cfg.resolutions {
                    Some(l) => texts(l@),
                    None => default_resolutions(),
                },
            }
        },
        None => default_resolutions(),
    }
}

/// No country is asked twice.
pub proof fn distinct_has_no_duplicates(s: Seq<Seq<char>>)
    ensures
        distinct(s).no_duplicates(),
        forall|t: Seq<char>| #[trigger] distinct(s).contains(t) <==> s.contains(t),
    decreases s.len(),
{
    if s.len() > 0 {
        distinct_has_no_duplicates(s.drop_last());
        let rest = distinct(s.drop_last());
        assert forall|t: Seq<char>| #[trigger] distinct(s).contains(t) <==> s.contains(t) by {
            if s.contains(t) {
                let i = choose|i: int| 0 <= i < s.len() && s[i] == t;
                if i < s.len() - 1 {
                    assert(s.drop_last()[i] == t);
                    assert(rest.contains(t));
                    let j = choose|j: int| 0 <= j < rest.len() && rest[j] == t;
                    assert(distinct(s)[j] == t);
                } else if rest.contains(t) {
                } else {
                    assert(distinct(s)[rest.len() as int] == t);
                }
            }
            if distinct(s).contains(t) {
                let j = choose|j: int| 0 <= j < distinct(s).len() && distinct(s)[j] == t;
                if j < rest.len() {
                    assert(rest[j] == t);
                    assert(rest.contains(t));
                    let i = choose|i: int| 0 <= i < s.drop_last().len() && s.drop_last()[i] == t;
                    assert(s[i] == t);
                } else {
                    assert(s[s.len() - 1] == t);
                }
            }
        }
        if !rest.contains(s.last()) {
            assert forall|i: int, j: int|
                0 <= i < distinct(s).len() && 0 <= j < distinct(s).len() && i
                    != j implies distinct(s)[i] != distinct(s)[j] by {
                if i < rest.len() && j < rest.len() {
                } else if i < rest.len() {
                    assert(rest.contains(rest[i]));
                } else {
                    assert(rest.contains(rest[j]));
                }
            }
        }
    }
}

impl BingSettings {
    /// Whether these are the settings that `config` asks for.
    pub open spec fn follows(self, config: Option<&AppConfig>) -> bool {
        &&& self.host@ == "www.bing.com"@
        &&& texts(self.countries@) == countries_of(config)
        &&& texts(self.resolutions@) == resolutions_of(config)
        &&& self.day == 0
    }

    /// The settings that `config` asks for.
    pub fn from_config(config: Option<&AppConfig>) -> (r: Self)
        ensures
            r.follows(config),
            r.countries@.len() > 0,
            texts(r.countries@).no_duplicates(),
    {
        let named = country_names(config);
        let mut kept = normalized_countries(&named);
        proof {
            distinct_has_no_duplicates(filled_in(texts(named@)));
        }
        if kept.len() == 0 {
            kept.push("en-US".to_string());
            assert(texts(kept@) =~= seq!["en-US"@]);
        }
        BingSettings {
            host: "www.bing.com".to_string(),
            countries: kept,
            resolutions: resolution_names(config),
            day: 0,
        }
    }
}

fn country_names(config: Option<&AppConfig>) -> (r: Vec<String>)
    ensures
        texts(r@) == named_countries(config),
{
    let cfg = match config {
        Some(cfg) => cfg,
        None => {
            return one_text("en-US");
        },
    };
    if let Some(b) = &cfg.bing {
        if let Some(list) = &b.countries {
            if list.len() > 0 {
                return copy_texts(list);
            }
        }
        if let Some(c) = &b.country {
            return one_text(c.as_str());
        }
    }
    match &cfg.country {
        Some(c) => one_text(c.as_str()),
        None => one_text("en-US"),
    }
}

fn one_text(t: &str) -> (r: Vec<String>)
    ensures
        texts(r@) == seq![t@],
{
    let r = vec![t.to_string()];
    assert(texts(r@) =~= seq![t@]);
    r
}

fn normalized_countries(named: &Vec<String>) -> (r: Vec<String>)
    ensures
        texts(r@) == distinct(filled_in(texts(named@))),
{
    let mut kept: Vec<String> = Vec::new();
    let ghost all = texts(named@).map_values(|t: Seq<char>| stripped(t));
    let ghost filled = |t: Seq<char>| t.len() > 0;
    let mut i: usize = 0;
    proof {
        reveal(Seq::filter);
        assert(all.take(0).filter(filled) =~= Seq::<Seq<char>>::empty());
        assert(texts(kept@) =~= Seq::<Seq<char>>::empty());
    }
    while i < named.len()
        invariant
            i <= named@.len(),
            all == texts(named@).map_values(|t: Seq<char>| stripped(t)),
            filled == (|t: Seq<char>| t.len() > 0),
            texts(kept@) == distinct(all.take(i as int).filter(filled)),
        decreases named@.len() - i,
    {
        let t = trim(named[i].as_str());
        proof {
            reveal(Seq::filter);
            assert(all.take(i + 1).drop_last() =~= all.take(i as int));
            assert(all.take(i + 1).last() == t@);
        }
        let ghost before = kept@;
        if !t.as_str().is_empty() {
            assert(all.take(i + 1).filter(filled).drop_last() =~= all.take(i as int).filter(
                filled,
            ));
            if !list_contains(&kept, t.as_str()) {
                kept.push(t);
                assert(texts(kept@) =~= texts(before).push(t@));
            }
        }
        i += 1;
    }
    assert(all.take(i as int) =~= all);
    kept
}

fn resolution_names(config: Option<&AppConfig>) -> (r: Vec<String>)
    ensures
        texts(r@) == resolutions_of(config),
{
    let cfg = match config {
        Some(cfg) => cfg,
        None => {
            return default_resolution_list();
        },
    };
    if let Some(b) = &cfg.bing {
        if let Some(list) = &b.resolutions {
            return copy_texts(list);
        }
    }
    match &cfg.resolutions {
        Some(list) => copy_texts(list),
        None => default_resolution_list(),
    }
}

/// Bing as a source.
pub struct BingSource;

impl Source for BingSource {
    open spec fn kind(&self) -> WallpaperSource {
        WallpaperSource::Bing
    }

    open spec fn takes_day(&self) -> bool {
        true
    }

    open spec fn preferred(&self, settings: SourceSettings) -> int {
        0
    }

    open spec fn none_found(&self, settings: SourceSettings, count: nat) -> Seq<char> {
        "No Bing candidates found."@
    }

    fn id(&self) -> (r: WallpaperSource) {
        WallpaperSource::Bing
    }

    fn label(&self) -> (r: &'static str) {
        "Bing"
    }

    fn description(&self) -> (r: &'static str) {
        "Bing daily wallpaper"
    }

    fn supports_day(&self) -> (r: bool) {
        true
    }

    fn pick_default<'a>(
        &self,
        candidates: &'a Vec<WallpaperCandidate>,
        settings: &SourceSettings,
    ) -> (r: Result<&'a WallpaperCandidate, WallpaperError>) {
        pick_first(candidates, "No Bing candidates found.")
    }
}

// ------------------------------------------------------------------------------------------
// Metadata
// ------------------------------------------------------------------------------------------

/// What is known about a wallpaper of Bing.
#[derive(Debug)]
pub struct BingMetadata {
    pub headline: Option<String>,
    pub copyright: Option<String>,
    pub copyright_link: Option<String>,
}

/// The text that bytes encode, if they are valid UTF-8.
pub open spec fn decoded(bytes: Seq<u8>) -> Option<Seq<char>> {
    if valid_utf8(bytes) {
        Some(decode_utf8(bytes))
    } else {
        None
    }
}

/// The nodes of the document that bytes hold, if they hold one.
pub open spec fn document(bytes: Seq<u8>) -> Option<Seq<(Seq<char>, Option<Seq<char>>)>> {
    match decoded(bytes) {
        Some(text) => xml_nodes(text),
        None => None,
    }
}

fn parse_document(body: &Vec<u8>) -> (r: Result<(String, Vec<XmlNode>), WallpaperError>)
    ensures
        match r {
            Ok((text, nodes)) => decoded(body@) == Some(text@) && document(body@) == Some(
                node_views(nodes@),
            ),
            Err(e) => document(body@) is None && e@ == ErrorView::MetadataParse,
        },
{
    match utf8_text(body) {
        Some(text) => match parse_nodes(text.as_str()) {
            Some(nodes) => Ok((text, nodes)),
            None => Err(WallpaperError::MetadataParse),
        },
        None => Err(WallpaperError::MetadataParse),
    }
}

/// The text of the first element with the given name.
pub fn parse_xml_text(body: &Vec<u8>, tag: &str) -> (r: Result<Option<String>, WallpaperError>)
    ensures
        match r {
            Ok(text) => document(body@) is Some && opt_text(text) == text_named(
                document(body@).unwrap(),
                tag@,
            ),
            Err(e) => document(body@) is None && e@ == ErrorView::MetadataParse,
        },
{
    match parse_document(body) {
        Ok((_, nodes)) => Ok(first_text(&nodes, tag)),
        Err(e) => Err(e),
    }
}

/// What a document says about a wallpaper.
pub fn metadata_of(nodes: &Vec<XmlNode>) -> (r: BingMetadata)
    ensures
        opt_text(r.headline) == text_named(node_views(nodes@), "headline"@),
        opt_text(r.copyright) == text_named(node_views(nodes@), "copyright"@),
        opt_text(r.copyright_link) == text_named(node_views(nodes@), "copyrightlink"@),
{
    BingMetadata {
        headline: first_text(nodes, "headline"),
        copyright: first_text(nodes, "copyright"),
        copyright_link: first_text(nodes, "copyrightlink"),
    }
}

/// What a response says about a wallpaper.
pub fn parse_bing_metadata(body: &Vec<u8>) -> (r: Result<BingMetadata, WallpaperError>)
    ensures
        match r {
            Ok(m) => {
                &&& document(body@) is Some
                &&& opt_text(m.headline) == text_named(document(body@).unwrap(), "headline"@)
                &&& opt_text(m.copyright) == text_named(document(body@).unwrap(), "copyright"@)
                &&& opt_text(m.copyright_link) == text_named(
                    document(body@).unwrap(),
                    "copyrightlink"@,
                )
            },
            Err(e) => document(body@) is None && e@ == ErrorView::MetadataParse,
        },
{
    match parse_document(body) {
        Ok((_, nodes)) => Ok(metadata_of(&nodes)),
        Err(e) => Err(e),
    }
}

/// The label of the day that eight digits such as `20250131` spell.
pub open spec fn startdate_label(startdate: Seq<char>) -> Option<Seq<char>> {
    let t = stripped(startdate);
    if t.len() == 8 && all_digits(t) {
        Some(
            t.subrange(0, 4) + seq!['-'] + t.subrange(4, 6) + seq!['-'] + t.subrange(6, 8),
        )
    } else {
        None
    }
}

/// The label of the day that eight digits spell.
pub fn normalize_startdate(startdate: &str) -> (r: Option<String>)
    ensures
        opt_text(r) == startdate_label(startdate@),
{
    let v = letters(trim(startdate).as_str());
    if v.len() != 8 {
        return None;
    }
    let mut i: usize = 0;
    while i < v.len()
        invariant
            i <= v@.len(),
            v@.len() == 8,
            v@ == stripped(startdate@),
            forall|j: int| 0 <= j < i ==> is_digit(#[trigger] v@[j]),
        decreases v@.len() - i,
    {
        let c = v[i];
        if !('0' <= c && c <= '9') {
            assert(!is_digit(v@[i as int]));
            return None;
        }
        i += 1;
    }
    let mut out = text_of(&v, 0, 4);
    out.push('-');
    out.append(text_of(&v, 4, 6).as_str());
    out.push('-');
    out.append(text_of(&v, 6, 8).as_str());
    assert(Some(out@) =~= startdate_label(startdate@));
    Some(out)
}

/// The label of the day that a document gives for its wallpaper.
pub open spec fn document_date(nodes: Seq<(Seq<char>, Option<Seq<char>>)>) -> Option<Seq<char>> {
    match text_named(nodes, "startdate"@) {
        Some(raw) => startdate_label(raw),
        None => None,
    }
}

/// The label of the day that a document gives for its wallpaper.
pub fn date_of_document(nodes: &Vec<XmlNode>) -> (r: Option<String>)
    ensures
        opt_text(r) == document_date(node_views(nodes@)),
{
    match first_text(nodes, "startdate") {
        Some(raw) => normalize_startdate(raw.as_str()),
        None => None,
    }
}

/// The label of the day that a response gives for its wallpaper.
pub fn metadata_date_label(body: &Vec<u8>) -> (r: Result<Option<String>, WallpaperError>)
    ensures
        match r {
            Ok(label) => document(body@) is Some && opt_text(label) == document_date(
                document(body@).unwrap(),
            ),
            Err(e) => document(body@) is None && e@ == ErrorView::MetadataParse,
        },
{
    match parse_document(body) {
        Ok((_, nodes)) => Ok(date_of_document(&nodes)),
        Err(e) => Err(e),
    }
}

/// The label of the day that kept metadata gives; `None` where it gives none.
pub open spec fn text_date(xml: Seq<char>) -> Option<Seq<char>> {
    match xml_nodes(xml) {
        Some(nodes) => document_date(nodes),
        None => None,
    }
}

/// The label of the day that kept metadata gives.
pub fn date_of_text(xml: &str) -> (r: Option<String>)
    ensures
        opt_text(r) == text_date(xml@),
{
    match parse_nodes(xml) {
        Some(nodes) => date_of_document(&nodes),
        None => None,
    }
}

// ------------------------------------------------------------------------------------------
// Names
// ------------------------------------------------------------------------------------------

/// The file name that a user asked for: its last component, with an extension.
pub open spec fn plain_filename(name: Seq<char>) -> Seq<char> {
    let t = stripped(name);
    if t.len() == 0 {
        "wallpaper.jpg"@
    } else {
        let base = match file_name(t) {
            Some(b) => b,
            None => "wallpaper.jpg"@,
        };
        if extension(base) is Some {
            base
        } else {
            base + ".jpg"@
        }
    }
}

/// The file name that a user asked for.
pub fn sanitize_filename(name: &str) -> (r: String)
    ensures
        r@ == plain_filename(name@),
{
    let trimmed = trim(name);
    if trimmed.as_str().is_empty() {
        return "wallpaper.jpg".to_string();
    }
    let mut base = match file_name_of(trimmed.as_str()) {
        Some(b) => b,
        None => "wallpaper.jpg".to_string(),
    };
    if extension_of(base.as_str()).is_none() {
        base.append(".jpg");
    }
    base
}

/// The address of the archive for one day and country.
pub open spec fn archive_url(day: int, country: Option<Seq<char>>) -> Seq<char> {
    let query = with_pair(
        with_pair(with_pair(Seq::empty(), "format"@, "xml"@), "idx"@, signed_decimal(day)),
        "n"@,
        "1"@,
    );
    "https://www.bing.com/HPImageArchive.aspx"@ + "?"@ + match country {
        Some(c) => with_pair(query, "mkt"@, c),
        None => query,
    }
}

/// The address of the archive for one day and country.
pub fn build_archive_url(day: i32, country: Option<&str>) -> (r: String)
    ensures
        r@ == archive_url(
            day as int,
            match country {
                Some(c) => Some(c@),
                None => None,
            },
        ),
{
    let empty = String::new();
    assert(empty@ =~= Seq::<char>::empty());
    let mut query = append_pair(empty, "format", "xml");
    query = append_pair(query, "idx", i32_text(day).as_str());
    query = append_pair(query, "n", "1");
    if let Some(c) = country {
        query = append_pair(query, "mkt", c);
    }
    let mut out = "https://www.bing.com/HPImageArchive.aspx".to_string();
    out.append("?");
    out.append(query.as_str());
    out
}

/// What tells wallpapers apart: the checksum, or else the address or the hash in the metadata
/// whose nodes are given, or else the address without its resolution.
pub open spec fn key_of(
    c: CandidateView,
    nodes: Option<Seq<(Seq<char>, Option<Seq<char>>)>>,
) -> Seq<char> {
    let from_url = match tail_from(c.image_url, "/th?id="@) {
        Some(tail) => match cut(tail, "_"@) {
            Some((base, _)) => base,
            None => tail,
        },
        None => c.image_url,
    };
    match c.checksum {
        Some(sum) => sum,
        None => match nodes {
            Some(n) => match text_named(n, "urlBase"@) {
                Some(url) => url,
                None => match text_named(n, "hsh"@) {
                    Some(hash) => hash,
                    None => from_url,
                },
            },
            None => from_url,
        },
    }
}

/// The nodes of a candidate's metadata.
pub open spec fn metadata_nodes(c: CandidateView) -> Option<Seq<(Seq<char>, Option<Seq<char>>)>> {
    match c.metadata_xml {
        Some(xml) => xml_nodes(xml),
        None => None,
    }
}

/// What tells a candidate apart from others.
pub open spec fn dedupe_key(c: CandidateView) -> Seq<char> {
    key_of(c, metadata_nodes(c))
}

/// What tells a candidate apart from others, given the nodes of its metadata.
pub fn key_with_nodes(candidate: &WallpaperCandidate, nodes: &Option<Vec<XmlNode>>) -> (r: String)
    ensures
        r@ == key_of(candidate@, opt_nodes(*nodes)),
{
    if let Some(sum) = &candidate.checksum {
        return sum.clone();
    }
    if let Some(list) = nodes {
        if let Some(url) = first_text(list, "urlBase") {
            return url;
        }
        if let Some(hash) = first_text(list, "hsh") {
            return hash;
        }
    }
    match from_first(candidate.image_url.as_str(), "/th?id=") {
        Some(tail) => match split_once(tail.as_str(), "_") {
            Some((base, _)) => base,
            None => tail,
        },
        None => candidate.image_url.clone(),
    }
}

/// What tells a candidate apart from others.
pub fn candidate_dedupe_key(candidate: &WallpaperCandidate) -> (r: String)
    ensures
        r@ == dedupe_key(candidate@),
{
    let nodes = match &candidate.metadata_xml {
        Some(xml) => parse_nodes(xml.as_str()),
        None => None,
    };
    key_with_nodes(candidate, &nodes)
}

/// Wallpapers with checksums are told apart by these alone, whatever else is known of them.
pub proof fn checksums_tell_wallpapers_apart(a: CandidateView, b: CandidateView)
    requires
        a.checksum is Some,
        b.checksum is Some,
    ensures
        dedupe_key(a) == dedupe_key(b) <==> a.checksum == b.checksum,
{
}

/// Without checksums, wallpapers whose metadata names a base address are told apart by it.
pub proof fn base_addresses_tell_wallpapers_apart(
    a: CandidateView,
    b: CandidateView,
    x: Seq<char>,
    y: Seq<char>,
)
    requires
        a.checksum is None,
        b.checksum is None,
        a.metadata_xml == Some(x),
        b.metadata_xml == Some(y),
        xml_nodes(x) matches Some(n) && text_named(n, "urlBase"@) is Some,
        xml_nodes(y) matches Some(n) && text_named(n, "urlBase"@) is Some,
    ensures
        dedupe_key(a) == dedupe_key(b) <==> text_named(xml_nodes(x).unwrap(), "urlBase"@)
            == text_named(xml_nodes(y).unwrap(), "urlBase"@),
{
}

/// Without checksum and metadata, an image of Bing is told apart by its name before the
/// resolution: two resolutions of one image are one wallpaper.
pub proof fn resolutions_are_one_wallpaper(
    a: CandidateView,
    b: CandidateView,
    host: Seq<char>,
    name: Seq<char>,
    x: Seq<char>,
    y: Seq<char>,
)
    requires
        a.checksum is None,
        b.checksum is None,
        a.metadata_xml is None,
        b.metadata_xml is None,
        !host.contains('/'),
        !name.contains('_'),
        a.image_url == host + "/th?id="@ + name + "_"@ + x,
        b.image_url == host + "/th?id="@ + name + "_"@ + y,
    ensures
        dedupe_key(a) == "/th?id="@ + name,
        dedupe_key(a) == dedupe_key(b),
{
    lemma_key_of_url(host, name, x);
    lemma_key_of_url(host, name, y);
}

proof fn lemma_key_of_url(host: Seq<char>, name: Seq<char>, x: Seq<char>)
    requires
        !host.contains('/'),
        !name.contains('_'),
    ensures
        tail_from(host + "/th?id="@ + name + "_"@ + x, "/th?id="@) == Some(
            "/th?id="@ + name + "_"@ + x,
        ),
        cut("/th?id="@ + name + "_"@ + x, "_"@) matches Some(parts) && parts.0 == "/th?id="@ + name,
{
    let pat = "/th?id="@;
    reveal_strlit("/th?id=");
    reveal_strlit("_");
    let url = host + pat + name + "_"@ + x;
    let tail = pat + name + "_"@ + x;
    let n = host.len() as int;
    crate::text::lemma_find_from(url, pat, 0);
    assert(url.subrange(n, n + pat.len()) =~= pat);
    assert(crate::text::occurs_at(url, pat, n));
    assert forall|i: int| 0 <= i < n implies !crate::text::occurs_at(url, pat, i) by {
        if crate::text::occurs_at(url, pat, i) {
            assert(url.subrange(i, i + pat.len())[0] == pat[0]);
            assert(host[i] == '/');
        }
    }
    assert(url.skip(n) =~= tail);
    let m = (pat + name).len() as int;
    crate::text::lemma_find_from(tail, "_"@, 0);
    assert(tail.subrange(m, m + 1) =~= "_"@);
    assert(crate::text::occurs_at(tail, "_"@, m));
    assert forall|i: int| 0 <= i < m implies !crate::text::occurs_at(tail, "_"@, i) by {
        if crate::text::occurs_at(tail, "_"@, i) {
            assert(tail.subrange(i, i + 1)[0] == "_"@[0]);
            if i >= pat.len() {
                assert(name[i - pat.len()] == '_');
            }
        }
    }
    assert(tail.take(m) =~= pat + name);
}

/// The countries of the section for Bing go before the one country of the section, and that before
/// the country at the top level; without any of them `en-US` is asked for.
pub proof fn countries_are_taken_in_turn(config: &AppConfig, b: &BingConfig)
    ensures
        (config.bing == Some(*b) && (b.countries matches Some(l) && l@.len() > 0)) ==> countries_of(
            Some(config),
        ) == (if distinct(filled_in(texts(b.countries.unwrap()@))).len() == 0 {
            seq!["en-US"@]
        } else {
            distinct(filled_in(texts(b.countries.unwrap()@)))
        }),
        (config.bing == Some(*b) && (b.countries matches Some(l) ==> l@.len() == 0)
            && b.country is Some) ==> named_countries(Some(config)) == seq![b.country.unwrap()@],
        (config.bing == Some(*b) && (b.countries matches Some(l) ==> l@.len() == 0)
            && b.country is None && config.country is Some) ==> named_countries(Some(config))
            == seq![config.country.unwrap()@],
        config.bing is None && config.country is Some ==> named_countries(Some(config)) == seq![
            config.country.unwrap()@,
        ],
        config.bing is None && config.country is None ==> named_countries(Some(config)) == seq![
            "en-US"@,
        ],
        named_countries(None) == seq!["en-US"@],
{
}

/// The resolutions of the section go before those at the top level; without both, these are tried,
/// the widest ordinary one first.
pub proof fn resolutions_are_taken_in_turn(config: &AppConfig, b: &BingConfig)
    ensures
        (config.bing == Some(*b) && b.resolutions is Some) ==> resolutions_of(Some(config))
            == texts(b.resolutions.unwrap()@),
        (config.bing == Some(*b) && b.resolutions is None || config.bing is None)
            && config.resolutions is Some ==> resolutions_of(Some(config)) == texts(
            config.resolutions.unwrap()@,
        ),
        resolutions_of(None) == seq![
            "1920x1200"@,
            "1920x1080"@,
            "1024x768"@,
            "1280x720"@,
            "1366x768"@,
            "UHD"@,
        ],
{
}

/// Of the countries that are listed, those remain that say something, without the space around
/// them.
pub proof fn empty_countries_are_left_out(s: Seq<Seq<char>>, c: Seq<char>)
    ensures
        filled_in(s).contains(c) <==> c.len() > 0 && exists|i: int|
            0 <= i < s.len() && stripped(#[trigger] s[i]) == c,
{
    let all = s.map_values(|t: Seq<char>| stripped(t));
    let p = |t: Seq<char>| t.len() > 0;
    lemma_filter_contains(all, p, c);
    if all.contains(c) {
        let i = choose|i: int| 0 <= i < all.len() && all[i] == c;
        assert(stripped(s[i]) == c);
    }
    if exists|i: int| 0 <= i < s.len() && stripped(#[trigger] s[i]) == c {
        let i = choose|i: int| 0 <= i < s.len() && stripped(#[trigger] s[i]) == c;
        assert(all[i] == c);
    }
}

proof fn lemma_filter_contains(s: Seq<Seq<char>>, p: spec_fn(Seq<char>) -> bool, c: Seq<char>)
    ensures
        s.filter(p).contains(c) <==> p(c) && s.contains(c),
    decreases s.len(),
{
    reveal(Seq::filter);
    if s.len() > 0 {
        let rest = s.drop_last();
        let kept = rest.filter(p);
        lemma_filter_contains(rest, p, c);
        if rest.contains(c) {
            let i = choose|i: int| 0 <= i < rest.len() && rest[i] == c;
            assert(s[i] == c);
        }
        if s.contains(c) {
            let i = choose|i: int| 0 <= i < s.len() && s[i] == c;
            if i < rest.len() {
                assert(rest[i] == c);
            }
        }
        if p(s.last()) {
            let all = kept.push(s.last());
            if kept.contains(c) {
                let i = choose|i: int| 0 <= i < kept.len() && kept[i] == c;
                assert(all[i] == c);
            }
            if all.contains(c) {
                let i = choose|i: int| 0 <= i < all.len() && all[i] == c;
                if i < kept.len() {
                    assert(kept[i] == c);
                }
            }
            assert(all[kept.len() as int] == s.last());
            assert(s[s.len() - 1] == s.last());
        }
    }
}

/// Bing is asked for today at its own host, in the countries and the resolutions that are asked
/// for.
pub proof fn today_is_asked_for_at_bing(s: BingSettings, config: Option<&AppConfig>)
    requires
        s.follows(config),
    ensures
        s.host@ == "www.bing.com"@,
        s.day == 0,
        texts(s.countries@) == countries_of(config),
        texts(s.resolutions@) == resolutions_of(config),
{
}

} // verus!
