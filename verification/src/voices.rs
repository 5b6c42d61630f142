use vstd::prelude::*;
use crate::catalog::{format_size, items_of, size_text};
use crate::model::{TtsVoicePackOption, TtsVoicePickerRegion, TtsVoiceSelection};
use crate::sorting::{
    key_le, keyed, lemma_sort_by_key_permutes, lemma_sort_by_key_sorted, lemma_sort_map_items,
    sort_by_key, sort_pairs,
};
use crate::text::{
    chars_eq, chars_slice, push_all, str_chars, str_to_uppercase, string_from_chars, upper_text,
    views,
};

use crate::text_map::distinct_keys;

verus! {

/// One speaker of an installed voice pack.
#[derive(Clone, Debug)]
pub struct TtsSpeakerEntry {
    pub name: String,
    pub speaker_id: i32,
}

/// A voice pack on disk and the speakers its model has.
#[derive(Clone, Debug)]
pub struct InstalledTtsPack {
    pub pack_id: String,
    pub display_name: String,
    pub voices: Vec<TtsSpeakerEntry>,
}

/// A row of the main screen's voice list.
#[derive(Clone, Debug, Default)]
pub struct TtsVoiceListItem {
    pub pack_id: String,
    /// The speaker to select by; empty for a single-speaker pack.
    pub name: String,
    pub display_name: String,
    /// The group label of a multi-speaker pack; empty otherwise.
    pub pack_display_name: String,
}

pub open spec fn voice_item_view(item: TtsVoiceListItem) -> (Seq<char>, Seq<char>, Seq<char>, Seq<
    char,
>) {
    (item.pack_id@, item.name@, item.display_name@, item.pack_display_name@)
}

/// The row for speaker `k` of a pack. A single-speaker pack is one voice
/// named after the pack; a multi-speaker pack keeps its name as a label.
pub open spec fn speaker_row(pack: InstalledTtsPack, k: int) -> (Seq<char>, Seq<char>, Seq<char>, Seq<
    char,
>) {
    let multi = pack.voices@.len() > 1;
    let speaker = pack.voices@[k].name@;
    (
        pack.pack_id@,
        if multi {
            speaker
        } else {
            seq![]
        },
        if multi {
            speaker
        } else {
            pack.display_name@
        },
        if multi {
            pack.display_name@
        } else {
            seq![]
        },
    )
}

pub open spec fn pack_rows(pack: InstalledTtsPack) -> Seq<(Seq<char>, Seq<char>, Seq<char>, Seq<char>)> {
    Seq::new(pack.voices@.len(), |k: int| speaker_row(pack, k))
}

/// Every speaker of every pack, pack by pack.
pub open spec fn voice_rows(packs: Seq<InstalledTtsPack>) -> Seq<
    (Seq<char>, Seq<char>, Seq<char>, Seq<char>),
>
    decreases packs.len(),
{
    if packs.len() == 0 {
        seq![]
    } else {
        voice_rows(packs.drop_last()) + pack_rows(packs.last())
    }
}

/// How many speakers the packs before pack `p` have.
pub open spec fn speakers_before(packs: Seq<InstalledTtsPack>, p: int) -> nat
    decreases p,
{
    if p <= 0 {
        0
    } else {
        speakers_before(packs, p - 1) + packs[p - 1].voices@.len()
    }
}

/// What the voice list shows for speaker `k` of a pack: a pack with one
/// speaker is one voice named after the pack, with no speaker name and no
/// group label; a pack with several lists each speaker by its own name,
/// grouped under the pack's name. Every row belongs to its pack.
pub open spec fn shows_speaker(
    row: (Seq<char>, Seq<char>, Seq<char>, Seq<char>),
    pack: InstalledTtsPack,
    k: int,
) -> bool {
    &&& row.0 == pack.pack_id@
    &&& pack.voices@.len() == 1 ==> row.1 == Seq::<char>::empty() && row.2 == pack.display_name@
        && row.3 == Seq::<char>::empty()
    &&& pack.voices@.len() > 1 ==> row.1 == pack.voices@[k].name@ && row.2 == pack.voices@[k].name@
        && row.3 == pack.display_name@
}

proof fn lemma_speakers_before_prefix(packs: Seq<InstalledTtsPack>, n: int, p: int)
    requires
        0 <= p <= n <= packs.len(),
    ensures
        speakers_before(packs.subrange(0, n), p) == speakers_before(packs, p),
    decreases p,
{
    if p > 0 {
        lemma_speakers_before_prefix(packs, n, p - 1);
    }
}

proof fn lemma_speakers_before_grows(packs: Seq<InstalledTtsPack>, p: int, q: int)
    requires
        0 <= p <= q,
    ensures
        speakers_before(packs, p) <= speakers_before(packs, q),
    decreases q - p,
{
    if p < q {
        lemma_speakers_before_grows(packs, p, q - 1);
    }
}

/// The voice list has one row per speaker, pack by pack in order; the rows
/// of pack `p` start after the speakers of the packs before it, and each
/// shows its speaker as `shows_speaker` says.
pub proof fn lemma_voice_rows_show_each_speaker(packs: Seq<InstalledTtsPack>)
    ensures
        voice_rows(packs).len() == speakers_before(packs, packs.len() as int),
        forall|p: int, k: int|
            0 <= p < packs.len() && 0 <= k < packs[p].voices@.len() ==> shows_speaker(
                #[trigger] voice_rows(packs)[speakers_before(packs, p) + k],
                packs[p],
                k,
            ),
    decreases packs.len(),
{
    if packs.len() > 0 {
        let n = packs.len() - 1;
        let init = packs.drop_last();
        lemma_voice_rows_show_each_speaker(init);
        assert(init =~= packs.subrange(0, n as int));
        assert forall|p: int| 0 <= p <= n implies speakers_before(init, p) == speakers_before(packs, p) by {
            lemma_speakers_before_prefix(packs, n as int, p);
        }
        let rows = voice_rows(packs);
        let head = voice_rows(init);
        assert(rows == head + pack_rows(packs.last()));
        assert forall|p: int, k: int|
            0 <= p < packs.len() && 0 <= k < packs[p].voices@.len() implies shows_speaker(
                #[trigger] rows[speakers_before(packs, p) + k],
                packs[p],
                k,
            ) by {
            if p < n {
                lemma_speakers_before_grows(init, p + 1, n as int);
                assert(init[p] == packs[p]);
                assert(speakers_before(init, p) == speakers_before(packs, p));
                assert(rows[speakers_before(packs, p) + k] == head[speakers_before(init, p) + k]);
            } else {
                assert(speakers_before(packs, p) == head.len());
                assert(rows[speakers_before(packs, p) + k] == pack_rows(packs[p])[k]);
            }
        }
    }
}

pub fn installed_voice_items(packs: Vec<InstalledTtsPack>) -> (r: Vec<TtsVoiceListItem>)
    ensures
        r@.map_values(|item: TtsVoiceListItem| voice_item_view(item)) == voice_rows(packs@),
        r@.len() == speakers_before(packs@, packs@.len() as int),
        forall|p: int|
            0 <= p < packs@.len() ==> #[trigger] speakers_before(packs@, p) + packs@[p].voices@.len()
                <= r@.len(),
        forall|p: int, k: int|
            0 <= p < packs@.len() && 0 <= k < packs@[p].voices@.len() ==> shows_speaker(
                voice_item_view(#[trigger] r@[speakers_before(packs@, p) + k]),
                packs@[p],
                k,
            ),
{
    let mut out: Vec<TtsVoiceListItem> = Vec::new();
    let mut i: usize = 0;
    while i < packs.len()
        invariant
            i <= packs@.len(),
            out@.map_values(|item: TtsVoiceListItem| voice_item_view(item)) == voice_rows(
                packs@.subrange(0, i as int),
            ),
        decreases packs.len() - i,
    {
        let pack = &packs[i];
        let multi = pack.voices.len() > 1;
        let ghost base = out@.map_values(|item: TtsVoiceListItem| voice_item_view(item));
        let mut k: usize = 0;
        while k < pack.voices.len()
            invariant
                k <= pack.voices@.len(),
                *pack == packs@[i as int],
                multi == (pack.voices@.len() > 1),
                out@.map_values(|item: TtsVoiceListItem| voice_item_view(item)) == base
                    + pack_rows(*pack).subrange(0, k as int),
            decreases pack.voices.len() - k,
        {
            let speaker = &pack.voices[k];
            let item = TtsVoiceListItem {
                pack_id: pack.pack_id.clone(),
                name: if multi {
                    speaker.name.clone()
                } else {
                    String::new()
                },
                display_name: if multi {
                    speaker.name.clone()
                } else {
                    pack.display_name.clone()
                },
                pack_display_name: if multi {
                    pack.display_name.clone()
                } else {
                    String::new()
                },
            };
            let ghost before = out@;
            out.push(item);
            proof {
                assert(voice_item_view(item) == speaker_row(*pack, k as int));
                assert(out@.map_values(|item: TtsVoiceListItem| voice_item_view(item))
                    =~= before.map_values(|item: TtsVoiceListItem| voice_item_view(item)).push(
                    voice_item_view(item),
                ));
                assert(pack_rows(*pack).subrange(0, k + 1) =~= pack_rows(*pack).subrange(
                    0,
                    k as int,
                ).push(speaker_row(*pack, k as int)));
            }
            k = k + 1;
        }
        proof {
            assert(pack_rows(*pack).subrange(0, k as int) =~= pack_rows(*pack));
            let pre = packs@.subrange(0, i + 1);
            assert(pre.drop_last() =~= packs@.subrange(0, i as int));
            assert(pre.last() == packs@[i as int]);
        }
        i = i + 1;
    }
    assert(packs@.subrange(0, packs@.len() as int) =~= packs@);
    proof {
        lemma_voice_rows_show_each_speaker(packs@);
        let views = out@.map_values(|item: TtsVoiceListItem| voice_item_view(item));
        assert forall|p: int| 0 <= p < packs@.len() implies #[trigger] speakers_before(packs@, p)
            + packs@[p].voices@.len() <= out@.len() by {
            lemma_speakers_before_grows(packs@, p + 1, packs@.len() as int);
        }
        assert forall|p: int, k: int|
            0 <= p < packs@.len() && 0 <= k < packs@[p].voices@.len() implies shows_speaker(
                voice_item_view(#[trigger] out@[speakers_before(packs@, p) + k]),
                packs@[p],
                k,
            ) by {
            let idx = speakers_before(packs@, p) + k;
            lemma_speakers_before_grows(packs@, p + 1, packs@.len() as int);
            assert(shows_speaker(voice_rows(packs@)[idx], packs@[p], k));
            assert(views[idx] == voice_item_view(out@[idx]));
        }
    }
    out
}

// ---------------------------------------------------------------------------
// Which voice is selected.
// ---------------------------------------------------------------------------

/// A row is the stored choice when pack and speaker agree; a choice without
/// a speaker means a single-speaker pack.
pub open spec fn is_selected(item: TtsVoiceListItem, selection: TtsVoiceSelection) -> bool {
    item.pack_id@ == selection.pack_id@ && item.name@ == match selection.speaker {
        Some(s) => s@,
        None => seq![],
    }
}

pub open spec fn first_selected(items: Seq<TtsVoiceListItem>, selection: TtsVoiceSelection) -> Option<int>
    decreases items.len(),
{
    if items.len() == 0 {
        None
    } else if is_selected(items[0], selection) {
        Some(0)
    } else {
        match first_selected(items.drop_first(), selection) {
            Some(i) => Some(i + 1),
            None => None,
        }
    }
}

/// The stored choice while it is still installed; otherwise the first
/// voice, which is what synthesis uses when given no pack.
pub open spec fn resolved_voice(items: Seq<TtsVoiceListItem>, stored: Option<TtsVoiceSelection>) -> Option<int> {
    let fallback = if items.len() > 0 {
        Some(0int)
    } else {
        None
    };
    match stored {
        Some(selection) => match first_selected(items, selection) {
            Some(i) => Some(i),
            None => fallback,
        },
        None => fallback,
    }
}

proof fn lemma_first_selected(items: Seq<TtsVoiceListItem>, selection: TtsVoiceSelection, k: int)
    requires
        0 <= k <= items.len(),
        forall|j: int| 0 <= j < k ==> !is_selected(#[trigger] items[j], selection),
    ensures
        k < items.len() && is_selected(items[k], selection) ==> first_selected(items, selection)
            == Some(k),
        k == items.len() ==> first_selected(items, selection) is None,
    decreases k,
{
    if k > 0 {
        assert forall|j: int| 0 <= j < k - 1 implies !is_selected(
            #[trigger] items.drop_first()[j],
            selection,
        ) by {
            assert(items.drop_first()[j] == items[j + 1]);
        }
        lemma_first_selected(items.drop_first(), selection, k - 1);
    }
}

pub open spec fn stored_choice(stored: Option<&TtsVoiceSelection>) -> Option<TtsVoiceSelection> {
    match stored {
        Some(s) => Some(*s),
        None => None,
    }
}

fn selection_matches(item: &TtsVoiceListItem, selection: &TtsVoiceSelection) -> (r: bool)
    ensures
        r == is_selected(*item, *selection),
{
    let speaker = match &selection.speaker {
        Some(s) => str_chars(s.as_str()),
        None => Vec::new(),
    };
    chars_eq(str_chars(item.pack_id.as_str()).as_slice(), str_chars(selection.pack_id.as_str()).as_slice())
        && chars_eq(str_chars(item.name.as_str()).as_slice(), speaker.as_slice())
}

pub fn resolve_tts_voice_selection<'a>(
    items: &'a [TtsVoiceListItem],
    stored: Option<&TtsVoiceSelection>,
) -> (r: Option<&'a TtsVoiceListItem>)
    ensures
        r is Some <==> resolved_voice(items@, stored_choice(stored)) is Some,
        r matches Some(item) ==> *item == items@[resolved_voice(items@, stored_choice(stored))->0],
{
    match stored {
        Some(selection) => {
            let mut i: usize = 0;
            while i < items.len()
                invariant
                    i <= items@.len(),
                    stored == Some(selection),
                    forall|j: int| 0 <= j < i ==> !is_selected(#[trigger] items@[j], *selection),
                decreases items.len() - i,
            {
                if selection_matches(&items[i], selection) {
                    proof {
                        lemma_first_selected(items@, *selection, i as int);
                        assert(stored_choice(stored) == Some(*selection));
                        assert(resolved_voice(items@, stored_choice(stored)) == Some(i as int));
                    }
                    return Some(&items[i]);
                }
                i = i + 1;
            }
            proof {
                lemma_first_selected(items@, *selection, i as int);
            }
        },
        None => {},
    }
    if items.len() > 0 {
        Some(&items[0])
    } else {
        None
    }
}

/// The voice the options menu shows as selected.
#[derive(Clone, Debug)]
pub struct SelectedVoice {
    pub pack_id: String,
    pub name: String,
    pub display_name: String,
}

/// The resolved row's pack, speaker and name; with no voice at all, nothing
/// selected and the default shown.
pub fn selected_voice(items: &[TtsVoiceListItem], stored: Option<&TtsVoiceSelection>) -> (r: SelectedVoice)
    ensures
        match resolved_voice(items@, stored_choice(stored)) {
            Some(i) => r.pack_id@ == items@[i].pack_id@ && r.name@ == items@[i].name@
                && r.display_name@ == items@[i].display_name@,
            None => r.pack_id@.len() == 0 && r.name@.len() == 0 && r.display_name@ == "Default"@,
        },
{
    match resolve_tts_voice_selection(items, stored) {
        Some(item) => SelectedVoice {
            pack_id: item.pack_id.clone(),
            name: item.name.clone(),
            display_name: item.display_name.clone(),
        },
        None => SelectedVoice {
            pack_id: String::new(),
            name: String::new(),
            display_name: string_from_chars(&str_chars("Default")),
        },
    }
}

// ---------------------------------------------------------------------------
// The voice-pack picker of the manage screen.
// ---------------------------------------------------------------------------

/// The text with its first character upper-cased.
pub open spec fn capitalized(value: Seq<char>) -> Seq<char> {
    if value.len() == 0 {
        seq![]
    } else {
        upper_text(seq![value[0]]) + value.skip(1)
    }
}

pub fn capitalize_first(value: &str) -> (r: String)
    ensures
        r@ == capitalized(value@),
{
    let chars = str_chars(value);
    if chars.len() == 0 {
        return String::new();
    }
    let head = chars_slice(chars.as_slice(), 0, 1);
    let head_text = string_from_chars(&head);
    let upper = str_to_uppercase(head_text.as_str());
    let mut out = str_chars(upper.as_str());
    let rest = chars_slice(chars.as_slice(), 1, chars.len());
    push_all(&mut out, rest.as_slice());
    assert(head@ =~= seq![value@[0]]);
    assert(rest@ =~= value@.skip(1));
    string_from_chars(&out)
}

/// A pack the picker asked for that the download queue has not finished;
/// requests run one at a time, so at most one is running, with its progress.
#[derive(Clone, Copy, Debug, PartialEq)]
pub enum PackDownloadState<P> {
    Queued,
    Running(P),
}

/// A row of the voice-pack picker.
#[derive(Clone, Debug)]
pub struct ManageTtsVoicePackListItem<P> {
    pub pack_id: String,
    /// `Downloaded` or `Available`.
    pub section_text: String,
    pub voice_display_name: String,
    /// Quality, size and, when there are several regions, the region.
    pub meta_text: String,
    pub installed: bool,
    pub queued: bool,
    /// The progress of the download when it is running.
    pub running: Option<P>,
}

impl<P: Copy + Default> ManageTtsVoicePackListItem<P> {
    /// The progress of the running download, or `P::default()`.
    pub fn progress(&self) -> (r: P)
        ensures
            self.running matches Some(p) ==> r == p,
    {
        match self.running {
            Some(p) => p,
            None => P::default(),
        }
    }
}

pub type PickerRowView<P> = (Seq<char>, Seq<char>, Seq<char>, Seq<char>, bool, bool, Option<P>);

pub open spec fn picker_row_view<P>(item: ManageTtsVoicePackListItem<P>) -> PickerRowView<P> {
    (
        item.pack_id@,
        item.section_text@,
        item.voice_display_name@,
        item.meta_text@,
        item.installed,
        item.queued,
        item.running,
    )
}

/// The state recorded for a pack: the first entry under its id.
pub open spec fn download_of<P>(downloads: Seq<(String, PackDownloadState<P>)>, pack_id: Seq<char>) -> Option<
    PackDownloadState<P>,
>
    decreases downloads.len(),
{
    if downloads.len() == 0 {
        None
    } else if downloads[0].0@ == pack_id {
        Some(downloads[0].1)
    } else {
        download_of(downloads.drop_first(), pack_id)
    }
}

/// A region's name, or its code when it has none.
pub open spec fn region_label(region: TtsVoicePickerRegion) -> Seq<char> {
    if region.display_name@.len() == 0 {
        region.code@
    } else {
        region.display_name@
    }
}

pub open spec fn quality_text(quality: Option<String>) -> Seq<char> {
    match quality {
        Some(q) => capitalized(q@),
        None => "Default quality"@,
    }
}

pub open spec fn meta_separator() -> Seq<char> {
    seq![' ', '\u{b7}', ' ']
}

pub open spec fn meta_text(voice: TtsVoicePackOption, region: Seq<char>, show_region: bool) -> Seq<char> {
    let base = quality_text(voice.quality) + meta_separator() + size_text(voice.size_bytes as nat);
    if show_region {
        base + meta_separator() + region
    } else {
        base
    }
}

/// Installed packs first, then by region, then by name.
pub open spec fn picker_key(voice: TtsVoicePackOption, region: Seq<char>) -> Seq<Seq<char>> {
    seq![
        if voice.installed {
            seq!['0']
        } else {
            seq!['1']
        },
        region,
        voice.display_name@,
    ]
}

pub open spec fn picker_row<P>(
    voice: TtsVoicePackOption,
    region: Seq<char>,
    show_region: bool,
    downloads: Seq<(String, PackDownloadState<P>)>,
) -> PickerRowView<P> {
    let download = download_of(downloads, voice.pack_id@);
    (
        voice.pack_id@,
        if voice.installed {
            "Downloaded"@
        } else {
            "Available"@
        },
        voice.display_name@,
        meta_text(voice, region, show_region),
        voice.installed,
        download == Some(PackDownloadState::<P>::Queued),
        match download {
            Some(PackDownloadState::Running(p)) => Some(p),
            _ => None,
        },
    )
}

pub open spec fn region_picker_rows<P>(
    region: TtsVoicePickerRegion,
    show_region: bool,
    downloads: Seq<(String, PackDownloadState<P>)>,
) -> Seq<(Seq<Seq<char>>, PickerRowView<P>)> {
    Seq::new(
        region.voices@.len(),
        |k: int|
            (
                picker_key(region.voices@[k], region_label(region)),
                picker_row(region.voices@[k], region_label(region), show_region, downloads),
            ),
    )
}

pub open spec fn picker_rows<P>(
    regions: Seq<TtsVoicePickerRegion>,
    show_region: bool,
    downloads: Seq<(String, PackDownloadState<P>)>,
) -> Seq<(Seq<Seq<char>>, PickerRowView<P>)>
    decreases regions.len(),
{
    if regions.len() == 0 {
        seq![]
    } else {
        picker_rows(regions.drop_last(), show_region, downloads) + region_picker_rows(
            regions.last(),
            show_region,
            downloads,
        )
    }
}

/// The picker's rows: every voice of every region, installed ones first so
/// the delete actions sit together, then by region and by name; the region
/// only appears in the text when there are several.
pub open spec fn picker_items<P>(
    regions: Seq<TtsVoicePickerRegion>,
    downloads: Seq<(String, PackDownloadState<P>)>,
) -> Seq<PickerRowView<P>> {
    items_of(sort_by_key(picker_rows(regions, regions.len() > 1, downloads)))
}

fn lookup_download<P: Copy>(downloads: &[(String, PackDownloadState<P>)], pack_id: &str) -> (r:
    Option<PackDownloadState<P>>)
    ensures
        r == download_of(downloads@, pack_id@),
{
    let wanted = str_chars(pack_id);
    let mut i: usize = 0;
    assert(downloads@.skip(0) =~= downloads@);
    while i < downloads.len()
        invariant
            i <= downloads@.len(),
            wanted@ == pack_id@,
            download_of(downloads@, pack_id@) == download_of(downloads@.skip(i as int), pack_id@),
        decreases downloads.len() - i,
    {
        proof {
            assert(downloads@.skip(i as int)[0] == downloads@[i as int]);
            assert(downloads@.skip(i as int).drop_first() =~= downloads@.skip(i + 1));
        }
        if chars_eq(str_chars(downloads[i].0.as_str()).as_slice(), wanted.as_slice()) {
            return Some(downloads[i].1);
        }
        i = i + 1;
    }
    None
}

fn quality_label(quality: &Option<String>) -> (r: Vec<char>)
    ensures
        r@ == quality_text(*quality),
{
    match quality {
        Some(q) => {
            let c = capitalize_first(q.as_str());
            str_chars(c.as_str())
        },
        None => str_chars("Default quality"),
    }
}

fn picker_item<P: Copy>(
    voice: &TtsVoicePackOption,
    region: &Vec<char>,
    show_region: bool,
    downloads: &[(String, PackDownloadState<P>)],
) -> (r: (Vec<Vec<char>>, ManageTtsVoicePackListItem<P>))
    ensures
        views(r.0@) == picker_key(*voice, region@),
        picker_row_view(r.1) == picker_row(*voice, region@, show_region, downloads@),
{
    let separator = str_chars(" \u{b7} ");
    let mut meta = quality_label(&voice.quality);
    push_all(&mut meta, separator.as_slice());
    let size = format_size(voice.size_bytes);
    push_all(&mut meta, str_chars(size.as_str()).as_slice());
    if show_region {
        push_all(&mut meta, separator.as_slice());
        push_all(&mut meta, region.as_slice());
    }
    let download = lookup_download(downloads, voice.pack_id.as_str());
    let queued = match download {
        Some(PackDownloadState::Queued) => true,
        _ => false,
    };
    let running = match download {
        Some(PackDownloadState::Running(p)) => Some(p),
        _ => None,
    };
    let section = if voice.installed {
        str_chars("Downloaded")
    } else {
        str_chars("Available")
    };
    let item = ManageTtsVoicePackListItem {
        pack_id: voice.pack_id.clone(),
        section_text: string_from_chars(&section),
        voice_display_name: voice.display_name.clone(),
        meta_text: string_from_chars(&meta),
        installed: voice.installed,
        queued,
        running,
    };
    let mut key: Vec<Vec<char>> = Vec::new();
    let mut flag: Vec<char> = Vec::new();
    flag.push(if voice.installed { '0' } else { '1' });
    key.push(flag);
    key.push(chars_slice(region.as_slice(), 0, region.len()));
    key.push(str_chars(voice.display_name.as_str()));
    proof {
        assert(separator@ =~= meta_separator()) by {
            reveal_strlit(" \u{b7} ");
        }
        assert(region@.subrange(0, region@.len() as int) =~= region@);
        assert(views(key@) =~= picker_key(*voice, region@));
    }
    (key, item)
}

pub fn manage_tts_picker_items<P: Copy>(
    regions: &[TtsVoicePickerRegion],
    downloads: &[(String, PackDownloadState<P>)],
) -> (r: Vec<ManageTtsVoicePackListItem<P>>)
    requires
        distinct_keys(downloads@),
    ensures
        r@.map_values(|item: ManageTtsVoicePackListItem<P>| picker_row_view(item)) == picker_items(
            regions@,
            downloads@,
        ),
{
    let show_region = regions.len() > 1;
    let ghost f = |item: ManageTtsVoicePackListItem<P>| picker_row_view(item);
    let mut pairs: Vec<(Vec<Vec<char>>, ManageTtsVoicePackListItem<P>)> = Vec::new();
    let mut i: usize = 0;
    while i < regions.len()
        invariant
            i <= regions@.len(),
            show_region == (regions@.len() > 1),
            f == (|item: ManageTtsVoicePackListItem<P>| picker_row_view(item)),
            keyed(pairs@).map_values(
                |p: (Seq<Seq<char>>, ManageTtsVoicePackListItem<P>)| (p.0, f(p.1)),
            ) == picker_rows(regions@.subrange(0, i as int), show_region, downloads@),
        decreases regions.len() - i,
    {
        let region = &regions[i];
        let label = if region.display_name.as_str().is_empty() {
            str_chars(region.code.as_str())
        } else {
            str_chars(region.display_name.as_str())
        };
        let ghost base = keyed(pairs@).map_values(
            |p: (Seq<Seq<char>>, ManageTtsVoicePackListItem<P>)| (p.0, f(p.1)),
        );
        let mut k: usize = 0;
        while k < region.voices.len()
            invariant
                k <= region.voices@.len(),
                *region == regions@[i as int],
                label@ == region_label(*region),
                show_region == (regions@.len() > 1),
                f == (|item: ManageTtsVoicePackListItem<P>| picker_row_view(item)),
                keyed(pairs@).map_values(
                    |p: (Seq<Seq<char>>, ManageTtsVoicePackListItem<P>)| (p.0, f(p.1)),
                ) == base + region_picker_rows(*region, show_region, downloads@).subrange(
                    0,
                    k as int,
                ),
            decreases region.voices.len() - k,
        {
            let pair = picker_item(&region.voices[k], &label, show_region, downloads);
            let ghost before = pairs@;
            pairs.push(pair);
            proof {
                let g = |p: (Seq<Seq<char>>, ManageTtsVoicePackListItem<P>)| (p.0, f(p.1));
                assert(keyed(pairs@).map_values(g) =~= keyed(before).map_values(g).push(
                    (views(pair.0@), picker_row_view(pair.1)),
                ));
                let rows = region_picker_rows(*region, show_region, downloads@);
                assert(rows.subrange(0, k + 1) =~= rows.subrange(0, k as int).push(rows[k as int]));
            }
            k = k + 1;
        }
        proof {
            let rows = region_picker_rows(*region, show_region, downloads@);
            assert(rows.subrange(0, k as int) =~= rows);
            let pre = regions@.subrange(0, i + 1);
            assert(pre.drop_last() =~= regions@.subrange(0, i as int));
            assert(pre.last() == regions@[i as int]);
        }
        i = i + 1;
    }
    assert(regions@.subrange(0, regions@.len() as int) =~= regions@);
    let ghost unsorted = keyed(pairs@);
    let mut sorted = sort_pairs(pairs);
    proof {
        lemma_sort_map_items(unsorted, f);
    }
    let mut out: Vec<ManageTtsVoicePackListItem<P>> = Vec::new();
    let ghost target = sort_by_key(unsorted);
    let ghost mut taken: int = 0;
    while sorted.len() > 0
        invariant
            target.len() == taken + sorted@.len(),
            0 <= taken <= target.len(),
            keyed(sorted@) == target.skip(taken),
            out@ == items_of(target.subrange(0, taken)),
        decreases sorted.len(),
    {
        let ghost old_sorted = sorted@;
        let pair = sorted.remove(0);
        proof {
            assert(keyed(sorted@) =~= keyed(old_sorted).skip(1));
            assert(target.skip(taken).skip(1) =~= target.skip(taken + 1));
            assert(keyed(old_sorted)[0] == target[taken]);
            assert(old_sorted[0] == pair);
        }
        let (_, item) = pair;
        out.push(item);
        proof {
            assert(items_of(target.subrange(0, taken + 1)) =~= items_of(
                target.subrange(0, taken),
            ).push(item));
            taken = taken + 1;
        }
    }
    proof {
        assert(target.subrange(0, taken) =~= target);
        let g = |p: (Seq<Seq<char>>, ManageTtsVoicePackListItem<P>)| (p.0, f(p.1));
        assert(out@.map_values(f) =~= items_of(target.map_values(g)));
    }
    out
}

/// A picker row's key starts with its installed mark.
pub open spec fn keyed_by_install<P>(pair: (Seq<Seq<char>>, PickerRowView<P>)) -> bool {
    pair.0.len() == 3 && pair.0[0] == (if pair.1.4 {
        seq!['0']
    } else {
        seq!['1']
    })
}

proof fn lemma_rows_keyed_by_install<P>(
    regions: Seq<TtsVoicePickerRegion>,
    show_region: bool,
    downloads: Seq<(String, PackDownloadState<P>)>,
)
    ensures
        forall|k: int|
            0 <= k < picker_rows(regions, show_region, downloads).len() ==> keyed_by_install(
                #[trigger] picker_rows(regions, show_region, downloads)[k],
            ),
    decreases regions.len(),
{
    if regions.len() > 0 {
        lemma_rows_keyed_by_install(regions.drop_last(), show_region, downloads);
        let front = picker_rows(regions.drop_last(), show_region, downloads);
        let back = region_picker_rows(regions.last(), show_region, downloads);
        assert forall|k: int| 0 <= k < (front + back).len() implies keyed_by_install(
            #[trigger] (front + back)[k],
        ) by {
            if k < front.len() {
                assert((front + back)[k] == front[k]);
            } else {
                assert((front + back)[k] == back[k - front.len()]);
            }
        }
    }
}

/// The voice-pack picker lists every installed pack before any pack that
/// is not installed, so the delete actions sit together.
pub proof fn lemma_installed_voices_lead<P>(
    regions: Seq<TtsVoicePickerRegion>,
    downloads: Seq<(String, PackDownloadState<P>)>,
)
    ensures
        forall|i: int, j: int|
            0 <= i < j < picker_items(regions, downloads).len() && (#[trigger] picker_items(
                regions,
                downloads,
            )[j]).4 ==> (#[trigger] picker_items(regions, downloads)[i]).4,
{
    let rows = picker_rows(regions, regions.len() > 1, downloads);
    let sorted = sort_by_key(rows);
    lemma_sort_by_key_sorted(rows);
    lemma_sort_by_key_permutes(rows);
    lemma_rows_keyed_by_install(regions, regions.len() > 1, downloads);
    assert forall|k: int| 0 <= k < sorted.len() implies keyed_by_install(#[trigger] sorted[k]) by {
        assert(sorted.contains(sorted[k]));
        vstd::seq_lib::to_multiset_contains(sorted, sorted[k]);
        vstd::seq_lib::to_multiset_contains(rows, sorted[k]);
        let m = choose|m: int| 0 <= m < rows.len() && rows[m] == sorted[k];
        assert(keyed_by_install(rows[m]));
    }
    let items = picker_items(regions, downloads);
    assert forall|i: int, j: int|
        0 <= i < j < items.len() && (#[trigger] items[j]).4 implies (#[trigger] items[i]).4 by {
        assert(key_le(sorted[i].0, sorted[j].0));
        assert(keyed_by_install(sorted[i]));
        assert(keyed_by_install(sorted[j]));
        assert(items[i] == sorted[i].1);
        assert(items[j] == sorted[j].1);
        if !sorted[i].1.4 {
            let a = sorted[i].0;
            let b = sorted[j].0;
            assert(a[0] == seq!['1']);
            assert(b[0] == seq!['0']);
            assert(crate::sorting::chars_le(seq!['0'], seq!['1']));
            assert(!crate::sorting::chars_le(seq!['1'], seq!['0']));
        }
    }
}

} // verus!
