//! A backend that shows windows in web browsers: texts tell which windows there are, and binary
//! messages hold their pixels.
use crate::client::window_manager::{
    after_removals, after_updates, info_models, list_of, surface_models, unreported, InfoModel,
    ListModel, WindowInfo, WindowManager,
};
use crate::client::state::SurfaceDelta;
use crate::models::surface::{BitmapAssignment, SurfaceState, WlSurfaceId};
use crate::models::surface_model::{
    clone_text, same_text, text_view, BitmapModel, SurfaceModel,
};
use crate::protocols::image::pixels::{
    copied_rows_keep_their_place, copy_rows, lemma_rows_within, padded_rows,
};
use crate::protocols::wprs::framing::{be_bytes, be_round_trip};
use crate::utils::json::{json_insert, json_object, json_text, json_to_text, no_members};
use crate::utils::sorted_map::{in_order, keys_of, lemma_entries, lemma_keys_in_order, SortedMap};
use crate::utils::text::{decimal, owned, push_decimal};
use vstd::prelude::*;

verus! {

/// Pixels as browsers get them: rows of BGRA pixels, aligned.
#[derive(Debug)]
pub struct EncodedFrame {
    pub width: u32,
    pub height: u32,
    pub stride: u32,
    pub bgra: Vec<u8>,
}

#[verifier::ext_equal]
pub struct FrameModel {
    pub width: u32,
    pub height: u32,
    pub stride: u32,
    pub bgra: Seq<u8>,
}

impl View for EncodedFrame {
    type V = FrameModel;

    open spec fn view(&self) -> FrameModel {
        FrameModel {
            width: self.width,
            height: self.height,
            stride: self.stride,
            bgra: self.bgra@,
        }
    }
}

/// The alignment of rows.
pub const STRIDE_ALIGNMENT: usize = 256;

/// The least multiple of `alignment` that is not below `value`, as far as numbers go. Nothing is a
/// multiple of zero, which changes nothing.
pub open spec fn aligned_up(value: int, alignment: int) -> int {
    if alignment == 0 {
        value
    } else if value + alignment - 1 > usize::MAX {
        usize::MAX as int / alignment * alignment
    } else {
        (value + alignment - 1) / alignment * alignment
    }
}

pub fn align_up(value: usize, alignment: usize) -> (r: usize)
    ensures
        r == aligned_up(value as int, alignment as int),
{
    if alignment == 0 {
        return value;
    }
    let sum: usize = value.saturating_add(alignment - 1);
    proof {
        vstd::arithmetic::div_mod::lemma_fundamental_div_mod(sum as int, alignment as int);
        assert(alignment as int * (sum as int / alignment as int) == sum as int / alignment as int
            * alignment as int) by (nonlinear_arith);
        assert(0 <= sum as int / alignment as int * alignment as int) by (nonlinear_arith)
            requires
                alignment > 0,
                sum >= 0,
        ;
    }
    sum / alignment * alignment
}

/// The frame of a bitmap, if it can be shown: some pixels, rows that do not overlap, and all of
/// them there.
pub open spec fn frame_of(bitmap: BitmapModel) -> Option<FrameModel> {
    let width = bitmap.metadata.width as int;
    let height = bitmap.metadata.height as int;
    let stride = bitmap.metadata.stride as int;
    if width <= 0 || height <= 0 || stride < width * 4 || bitmap.data.len() < stride * height {
        None
    } else if stride % 256 == 0 {
        Some(
            FrameModel {
                width: width as u32,
                height: height as u32,
                stride: stride as u32,
                bgra: bitmap.data.subrange(0, stride * height),
            },
        )
    } else {
        let aligned = (stride + 255) / 256 * 256;
        Some(
            FrameModel {
                width: width as u32,
                height: height as u32,
                stride: aligned as u32,
                bgra: padded_rows(bitmap.data, stride, width * 4, aligned as nat, height as nat),
            },
        )
    }
}

pub open spec fn surface_frame(state: SurfaceModel) -> Option<FrameModel> {
    match state.bitmap {
        Some(Some(bitmap)) => frame_of(bitmap),
        _ => None,
    }
}

/// The frame of a surface, if it has one to show.
pub fn encode_surface_bgra(state: &SurfaceState) -> (r: Option<EncodedFrame>)
    ensures
        match r {
            Some(frame) => surface_frame(state@) == Some(frame@),
            None => surface_frame(state@) is None,
        },
{
    let buf = match &state.bitmap {
        Some(BitmapAssignment::New(buf)) => buf,
        _ => {
            return None;
        },
    };
    if buf.metadata.width <= 0 || buf.metadata.height <= 0 || buf.metadata.stride < 0 {
        return None;
    }
    let width: u32 = buf.metadata.width as u32;
    let height: u32 = buf.metadata.height as u32;
    let stride: u32 = buf.metadata.stride as u32;
    if width as u64 * 4 > stride as u64 {
        return None;
    }
    proof {
        assert(stride * height <= 0x8000_0000 * 0x8000_0000) by (nonlinear_arith)
            requires
                stride <= 0x8000_0000,
                height <= 0x8000_0000,
        ;
    }
    let expected_len: u64 = stride as u64 * height as u64;
    if (buf.data.len() as u64) < expected_len {
        return None;
    }
    let expected_len: usize = expected_len as usize;
    let stride_usize: usize = stride as usize;
    let row_bytes: usize = width as usize * 4;
    let aligned_stride: usize = align_up(stride_usize, STRIDE_ALIGNMENT);
    if aligned_stride == stride_usize {
        let mut bgra: Vec<u8> = Vec::new();
        let mut i: usize = 0;
        while i < expected_len
            invariant
                i <= expected_len,
                expected_len <= buf.data@.len(),
                bgra@ == buf.data@.subrange(0, i as int),
            decreases expected_len - i,
        {
            bgra.push(buf.data.bytes[i]);
            i = i + 1;
            assert(buf.data@.subrange(0, i as int) =~= buf.data@.subrange(0, i - 1).push(
                buf.data@[i - 1],
            ));
        }
        Some(EncodedFrame { width, height, stride, bgra })
    } else {
        proof {
            lemma_rows_within(
                height as int,
                row_bytes as int,
                stride_usize as int,
                buf.data@.len() as int,
            );
        }
        let bgra = copy_rows(
            buf.data.as_slice(),
            stride_usize,
            row_bytes,
            aligned_stride,
            height as usize,
        );
        Some(EncodedFrame { width, height, stride: aligned_stride as u32, bgra })
    }
}

/// The four bytes of a number, the least significant first.
pub open spec fn le_bytes(n: u32) -> Seq<u8> {
    seq![
        (n as int % 256) as u8,
        (n as int / 0x100 % 256) as u8,
        (n as int / 0x1_0000 % 256) as u8,
        (n as int / 0x100_0000) as u8,
    ]
}

/// A frame as it is sent: a one, the surface, the sizes, and the pixels. All numbers have their
/// least significant byte first.
pub open spec fn frame_message(surface_id: WlSurfaceId, frame: FrameModel) -> Seq<u8> {
    seq![1u8] + be_bytes(surface_id.0).reverse() + le_bytes(frame.width) + le_bytes(frame.height)
        + le_bytes(frame.stride) + frame.bgra
}

fn push_le_u32(out: &mut Vec<u8>, n: u32)
    ensures
        final(out)@ == old(out)@ + le_bytes(n),
{
    let ghost before = out@;
    out.push((n % 256) as u8);
    out.push((n / 0x100 % 256) as u8);
    out.push((n / 0x1_0000 % 256) as u8);
    out.push((n / 0x100_0000) as u8);
    assert(out@ =~= before + le_bytes(n));
}

fn push_le_u64(out: &mut Vec<u8>, n: u64)
    ensures
        final(out)@ == old(out)@ + be_bytes(n).reverse(),
{
    let ghost before = out@;
    out.push((n % 256) as u8);
    out.push((n / 0x100 % 256) as u8);
    out.push((n / 0x1_0000 % 256) as u8);
    out.push((n / 0x100_0000 % 256) as u8);
    out.push((n / 0x1_0000_0000 % 256) as u8);
    out.push((n / 0x100_0000_0000 % 256) as u8);
    out.push((n / 0x1_0000_0000_0000 % 256) as u8);
    out.push((n / 0x100_0000_0000_0000) as u8);
    assert(out@ =~= before + be_bytes(n).reverse());
}

/// The message that brings a frame to browsers.
pub fn encode_frame_message(surface_id: WlSurfaceId, frame: EncodedFrame) -> (r: Vec<u8>)
    ensures
        r@ == frame_message(surface_id, frame@),
{
    let mut out: Vec<u8> = Vec::new();
    out.push(1);
    assert(out@ =~= seq![1u8]);
    push_le_u64(&mut out, surface_id.0);
    push_le_u32(&mut out, frame.width);
    push_le_u32(&mut out, frame.height);
    push_le_u32(&mut out, frame.stride);
    let mut bgra = frame.bgra;
    out.append(&mut bgra);
    out
}

/// Where things are in the message of a frame.
pub proof fn frame_message_layout(surface_id: WlSurfaceId, frame: FrameModel)
    ensures
        ({
            let message = frame_message(surface_id, frame);
            &&& message.len() == 21 + frame.bgra.len()
            &&& message[0] == 1
            &&& message.subrange(1, 9) == be_bytes(surface_id.0).reverse()
            &&& message.subrange(9, 13) == le_bytes(frame.width)
            &&& message.subrange(13, 17) == le_bytes(frame.height)
            &&& message.subrange(17, 21) == le_bytes(frame.stride)
            &&& message.subrange(21, message.len() as int) == frame.bgra
        }),
{
    let message = frame_message(surface_id, frame);
    assert(message.subrange(1, 9) =~= be_bytes(surface_id.0).reverse());
    assert(message.subrange(9, 13) =~= le_bytes(frame.width));
    assert(message.subrange(13, 17) =~= le_bytes(frame.height));
    assert(message.subrange(17, 21) =~= le_bytes(frame.stride));
    assert(message.subrange(21, message.len() as int) =~= frame.bgra);
}

/// The members of the message that tells of a window.
pub open spec fn surface_members(
    surface_id: WlSurfaceId,
    title: Option<Seq<char>>,
    app_id: Option<Seq<char>>,
) -> Map<Seq<char>, Seq<char>> {
    let named = no_members().insert("type"@, "surface"@).insert("id"@, decimal(surface_id.0 as nat));
    let titled = match title {
        Some(title) => named.insert("title"@, title),
        None => named,
    };
    match app_id {
        Some(app_id) => titled.insert("app_id"@, app_id),
        None => titled,
    }
}

/// The members of the message that tells that a window went.
pub open spec fn destroyed_members(surface_id: WlSurfaceId) -> Map<Seq<char>, Seq<char>> {
    no_members().insert("type"@, "surface_destroyed"@).insert("id"@, decimal(surface_id.0 as nat))
}

fn number_text(n: u64) -> (r: String)
    ensures
        r@ == decimal(n as nat),
{
    let mut out = String::new();
    push_decimal(&mut out, n);
    assert(out@ =~= decimal(n as nat));
    out
}

/// The message that tells of a window.
pub fn surface_event_json(surface_id: WlSurfaceId, title: Option<&str>, app_id: Option<&str>) -> (r:
    String)
    ensures
        r@ == json_text(
            surface_members(
                surface_id,
                match title {
                    Some(t) => Some(t@),
                    None => None,
                },
                match app_id {
                    Some(a) => Some(a@),
                    None => None,
                },
            ),
        ),
{
    let mut obj = json_object();
    json_insert(&mut obj, owned("type"), owned("surface"));
    json_insert(&mut obj, owned("id"), number_text(surface_id.0));
    if let Some(title) = title {
        json_insert(&mut obj, owned("title"), owned(title));
    }
    if let Some(app_id) = app_id {
        json_insert(&mut obj, owned("app_id"), owned(app_id));
    }
    json_to_text(obj)
}

/// The message that tells that a window went.
pub fn surface_destroyed_json(surface_id: WlSurfaceId) -> (r: String)
    ensures
        r@ == json_text(destroyed_members(surface_id)),
{
    let mut obj = json_object();
    json_insert(&mut obj, owned("type"), owned("surface_destroyed"));
    json_insert(&mut obj, owned("id"), number_text(surface_id.0));
    json_to_text(obj)
}

/// A message to all browsers.
#[derive(Debug)]
pub enum WireMessage {
    Text(String),
    Binary(Vec<u8>),
}

#[verifier::ext_equal]
pub enum WireModel {
    Text(Seq<char>),
    Binary(Seq<u8>),
}

impl View for WireMessage {
    type V = WireModel;

    open spec fn view(&self) -> WireModel {
        match *self {
            WireMessage::Text(text) => WireModel::Text(text@),
            WireMessage::Binary(bytes) => WireModel::Binary(bytes@),
        }
    }
}

pub open spec fn seen(messages: Seq<WireMessage>) -> Seq<WireModel> {
    Seq::new(messages.len(), |i: int| messages[i]@)
}

fn send(out: &mut Vec<WireMessage>, message: WireMessage)
    ensures
        seen(final(out)@) == seen(old(out)@).push(message@),
{
    let ghost before = seen(out@);
    let ghost new = message@;
    out.push(message);
    assert(seen(out@) =~= before.push(new));
}

/// What browsers were told of a window.
#[derive(Debug)]
pub struct SurfaceInfo {
    pub title: Option<String>,
}

pub open spec fn titles_of(m: Map<u64, SurfaceInfo>) -> Map<u64, Option<Seq<char>>> {
    m.map_values(|info: SurfaceInfo| text_view(info.title))
}

/// The titles that browsers know, and the messages on their way.
#[verifier::ext_equal]
pub struct Told {
    pub titles: Map<u64, Option<Seq<char>>>,
    pub out: Seq<WireModel>,
}

pub open spec fn window_gone(t: Told, surface_id: WlSurfaceId) -> Told {
    if t.titles.contains_key(surface_id.0) {
        Told {
            titles: t.titles.remove(surface_id.0),
            out: t.out.push(WireModel::Text(json_text(destroyed_members(surface_id)))),
        }
    } else {
        t
    }
}

/// Browsers hear of a window when it is new, and when its title changes.
pub open spec fn window_announced(t: Told, info: InfoModel) -> Told {
    if t.titles.contains_key(info.id.0) && t.titles[info.id.0] == info.title {
        t
    } else {
        Told {
            titles: t.titles.insert(info.id.0, info.title),
            out: t.out.push(
                WireModel::Text(json_text(surface_members(info.id, info.title, info.app_id))),
            ),
        }
    }
}

pub open spec fn windows_gone(t: Told, gone: Seq<WlSurfaceId>) -> Told
    decreases gone.len(),
{
    if gone.len() == 0 {
        t
    } else {
        window_gone(windows_gone(t, gone.drop_last()), gone.last())
    }
}

pub open spec fn windows_announced(t: Told, infos: Seq<InfoModel>) -> Told
    decreases infos.len(),
{
    if infos.len() == 0 {
        t
    } else {
        window_announced(windows_announced(t, infos.drop_last()), infos.last())
    }
}

pub open spec fn frames_sent(out: Seq<WireModel>, states: Seq<SurfaceModel>) -> Seq<WireModel>
    decreases states.len(),
{
    if states.len() == 0 {
        out
    } else {
        let before = frames_sent(out, states.drop_last());
        match surface_frame(states.last()) {
            Some(frame) => before.push(WireModel::Binary(frame_message(states.last().id, frame))),
            None => before,
        }
    }
}

/// What an update leads to: windows that went, then windows that changed, then pixels.
pub open spec fn updates_told(t: Told, list: ListModel, states: Seq<SurfaceModel>) -> Told {
    let t = windows_announced(windows_gone(t, list.removed), list.upserts);
    Told { out: frames_sent(t.out, states), ..t }
}

pub struct HtmlPresenter {
    pub surfaces: SortedMap<u64, SurfaceInfo>,
    pub window_manager: WindowManager,
}

proof fn lemma_titles_insert(m: Map<u64, SurfaceInfo>, key: u64, info: SurfaceInfo)
    ensures
        titles_of(m.insert(key, info)) == titles_of(m).insert(key, text_view(info.title)),
{
    assert(titles_of(m.insert(key, info)) =~= titles_of(m).insert(key, text_view(info.title)));
}

proof fn lemma_titles_remove(m: Map<u64, SurfaceInfo>, key: u64)
    ensures
        titles_of(m.remove(key)) == titles_of(m).remove(key),
{
    assert(titles_of(m.remove(key)) =~= titles_of(m).remove(key));
}

pub open spec fn told_by(presenter: HtmlPresenter, out: Seq<WireMessage>) -> Told {
    Told { titles: titles_of(presenter.surfaces@), out: seen(out) }
}

impl HtmlPresenter {
    pub open spec fn wf(&self) -> bool {
        self.surfaces.wf()
    }

    pub fn new() -> (r: Self)
        ensures
            r.wf(),
            titles_of(r.surfaces@) == Map::<u64, Option<Seq<char>>>::empty(),
            r.window_manager@ == Map::<u64, InfoModel>::empty(),
    {
        let r = HtmlPresenter {
            surfaces: SortedMap::new(),
            window_manager: WindowManager::new(),
        };
        assert(titles_of(r.surfaces@) =~= Map::<u64, Option<Seq<char>>>::empty());
        r
    }

    fn remove_surface(&mut self, surface_id: WlSurfaceId, out: &mut Vec<WireMessage>)
        requires
            old(self).wf(),
        ensures
            final(self).wf(),
            final(self).window_manager == old(self).window_manager,
            told_by(*final(self), final(out)@) == window_gone(
                told_by(*old(self), old(out)@),
                surface_id,
            ),
    {
        let ghost before = self.surfaces@;
        proof {
            lemma_titles_remove(before, surface_id.0);
        }
        if self.surfaces.remove(surface_id.0).is_some() {
            send(out, WireMessage::Text(surface_destroyed_json(surface_id)));
        } else {
            assert(before.remove(surface_id.0) =~= before);
        }
    }

    fn announce_window(&mut self, window: &WindowInfo, out: &mut Vec<WireMessage>)
        requires
            old(self).wf(),
        ensures
            final(self).wf(),
            final(self).window_manager == old(self).window_manager,
            told_by(*final(self), final(out)@) == window_announced(
                told_by(*old(self), old(out)@),
                window@,
            ),
    {
        let known = match self.surfaces.get(window.id.0) {
            Some(info) => same_text(&info.title, &window.title),
            None => false,
        };
        if known {
            return ;
        }
        let info = SurfaceInfo { title: clone_text(&window.title) };
        proof {
            lemma_titles_insert(self.surfaces@, window.id.0, info);
        }
        self.surfaces.insert(window.id.0, info);
        let title = match &window.title {
            Some(title) => Some(title.as_str()),
            None => None,
        };
        let app_id = match &window.app_id {
            Some(app_id) => Some(app_id.as_str()),
            None => None,
        };
        send(out, WireMessage::Text(surface_event_json(window.id, title, app_id)));
    }

    /// Tells browsers what changed.
    pub fn apply_updates(&mut self, surfaces: &SurfaceDelta) -> (r: Vec<WireMessage>)
        requires
            old(self).wf(),
        ensures
            final(self).wf(),
            ({
                let list = after_removals(
                    after_updates(
                        unreported(old(self).window_manager@),
                        surface_models(surfaces.updated@),
                    ),
                    surfaces.removed@,
                );
                &&& final(self).window_manager@ == list.windows
                &&& told_by(*final(self), r@) == updates_told(
                    Told { titles: titles_of(old(self).surfaces@), out: Seq::empty() },
                    list,
                    surface_models(surfaces.updated@),
                )
            }),
    {
        let mut out: Vec<WireMessage> = Vec::new();
        let ghost start = Told { titles: titles_of(self.surfaces@), out: Seq::empty() };
        assert(seen(out@) =~= Seq::<WireModel>::empty());
        let delta = self.window_manager.apply_surface_updates(
            surfaces.updated.as_slice(),
            surfaces.removed.as_slice(),
        );
        let ghost list = list_of(self.window_manager, delta);
        let ghost manager = self.window_manager;
        let mut i: usize = 0;
        assert(list.removed.subrange(0, 0) =~= Seq::empty());
        while i < delta.removed.len()
            invariant
                self.wf(),
                self.window_manager == manager,
                i <= delta.removed@.len(),
                list.removed == delta.removed@,
                told_by(*self, out@) == windows_gone(start, list.removed.subrange(0, i as int)),
            decreases delta.removed@.len() - i,
        {
            self.remove_surface(delta.removed[i], &mut out);
            i = i + 1;
            assert(list.removed.subrange(0, i as int).drop_last() =~= list.removed.subrange(
                0,
                i - 1,
            ));
        }
        assert(list.removed.subrange(0, i as int) =~= list.removed);
        let ghost middle = windows_gone(start, list.removed);
        let mut i: usize = 0;
        assert(list.upserts.subrange(0, 0) =~= Seq::empty());
        while i < delta.upserts.len()
            invariant
                self.wf(),
                self.window_manager == manager,
                i <= delta.upserts@.len(),
                list.upserts == info_models(delta.upserts@),
                told_by(*self, out@) == windows_announced(
                    middle,
                    list.upserts.subrange(0, i as int),
                ),
            decreases delta.upserts@.len() - i,
        {
            self.announce_window(&delta.upserts[i], &mut out);
            i = i + 1;
            assert(list.upserts.subrange(0, i as int).drop_last() =~= list.upserts.subrange(
                0,
                i - 1,
            ));
        }
        assert(list.upserts.subrange(0, i as int) =~= list.upserts);
        let ghost announced = windows_announced(middle, list.upserts);
        let ghost states = surface_models(surfaces.updated@);
        let mut i: usize = 0;
        assert(states.subrange(0, 0) =~= Seq::empty());
        while i < surfaces.updated.len()
            invariant
                self.wf(),
                self.window_manager == manager,
                i <= surfaces.updated@.len(),
                states == surface_models(surfaces.updated@),
                titles_of(self.surfaces@) == announced.titles,
                seen(out@) == frames_sent(announced.out, states.subrange(0, i as int)),
            decreases surfaces.updated@.len() - i,
        {
            if let Some(frame) = encode_surface_bgra(&surfaces.updated[i]) {
                let message = encode_frame_message(surfaces.updated[i].id, frame);
                send(&mut out, WireMessage::Binary(message));
            }
            i = i + 1;
            assert(states.subrange(0, i as int).drop_last() =~= states.subrange(0, i - 1));
            assert(states.subrange(0, i as int).last() == surfaces.updated@[i - 1]@);
        }
        assert(states.subrange(0, i as int) =~= states);
        out
    }

    /// What a browser that joins is told: all windows and their titles.
    pub fn snapshot_messages(&self) -> (r: Vec<String>)
        requires
            self.wf(),
        ensures
            ({
                let keys = in_order(titles_of(self.surfaces@).dom());
                &&& r@.len() == keys.len()
                &&& forall|i: int|
                    0 <= i < keys.len() ==> (#[trigger] r@[i])@ == json_text(
                        surface_members(
                            WlSurfaceId(keys[i]),
                            titles_of(self.surfaces@)[keys[i]],
                            None,
                        ),
                    )
            }),
    {
        let ghost entries = self.surfaces.entries@;
        let mut out: Vec<String> = Vec::new();
        let mut i: usize = 0;
        while i < self.surfaces.entries.len()
            invariant
                i <= entries.len(),
                entries == self.surfaces.entries@,
                out@.len() == i,
                forall|j: int|
                    0 <= j < i ==> (#[trigger] out@[j])@ == json_text(
                        surface_members(
                            WlSurfaceId(entries[j].key),
                            text_view(entries[j].value.title),
                            None,
                        ),
                    ),
            decreases entries.len() - i,
        {
            let entry = &self.surfaces.entries[i];
            let title = match &entry.value.title {
                Some(title) => Some(title.as_str()),
                None => None,
            };
            out.push(surface_event_json(WlSurfaceId(entry.key), title, None));
            i = i + 1;
        }
        proof {
            lemma_keys_in_order(entries);
            lemma_entries(entries);
            let titles = titles_of(self.surfaces@);
            assert(titles.dom() =~= self.surfaces@.dom());
            assert forall|j: int| 0 <= j < entries.len() implies titles[keys_of(entries)[j]]
                == text_view(entries[j].value.title) by {
                assert(self.surfaces@.contains_pair(entries[j].key, entries[j].value));
            }
        }
        out
    }
}

/// Announcing a window again tells browsers nothing.
pub proof fn repeated_announcement_is_silent(t: Told, info: InfoModel)
    ensures
        window_announced(window_announced(t, info), info) == window_announced(t, info),
{
}

/// A bitmap with pixels, whose rows do not overlap and are all there, is shown as a frame of its
/// size, and no other is. Rows of the frame are a multiple of 256 bytes, the least that holds a row
/// of the bitmap, and each pixel is at its place.
pub proof fn frames_show_their_bitmap(bitmap: BitmapModel, x: int, y: int, c: int)
    requires
        0 <= c < 4,
    ensures
        ({
            let meta = bitmap.metadata;
            let there = meta.width > 0 && meta.height > 0 && meta.width * 4 <= meta.stride
                && meta.stride * meta.height <= bitmap.data.len();
            &&& (frame_of(bitmap) is Some) == there
            &&& frame_of(bitmap) matches Some(frame) ==> {
                &&& frame.width == meta.width
                &&& frame.height == meta.height
                &&& frame.stride as int % 256 == 0
                &&& meta.stride <= frame.stride < meta.stride + 256
                &&& frame.bgra.len() == frame.stride * frame.height
                &&& 0 <= x < meta.width && 0 <= y < meta.height ==> frame.bgra[y * frame.stride + x
                    * 4 + c] == bitmap.data[y * meta.stride + x * 4 + c]
            }
        }),
{
    let meta = bitmap.metadata;
    if let Some(frame) = frame_of(bitmap) {
        let stride = meta.stride as int;
        let height = meta.height as int;
        if stride % 256 == 0 {
            assert(bitmap.data.subrange(0, stride * height).len() == stride * height);
            if 0 <= x < meta.width && 0 <= y < meta.height {
                assert(0 <= y * stride && y * stride + stride <= stride * height) by (nonlinear_arith)
                    requires
                        0 <= y <= height - 1,
                        0 <= stride,
                ;
            }
        } else {
            if 0 <= x < meta.width && 0 <= y < meta.height {
                copied_rows_keep_their_place(
                    bitmap.data,
                    stride,
                    meta.width * 4,
                    frame.stride as nat,
                    height as nat,
                    x * 4 + c,
                    y,
                );
            }
        }
    }
}

/// The message of a frame is a one, eight bytes of the surface, and four each of the width, the
/// height and the distance of rows, the least significant first; then come the pixels.
pub proof fn frame_messages_are_little_endian(surface_id: WlSurfaceId, frame: FrameModel, k: int)
    requires
        0 <= k < frame.bgra.len(),
    ensures
        ({
            let m = frame_message(surface_id, frame);
            &&& m.len() == 21 + frame.bgra.len()
            &&& m[0] == 1
            &&& m[1] + m[2] * 0x100 + m[3] * 0x1_0000 + m[4] * 0x100_0000 + m[5] * 0x1_0000_0000
                + m[6] * 0x100_0000_0000 + m[7] * 0x1_0000_0000_0000 + m[8] * 0x100_0000_0000_0000
                == surface_id.0
            &&& m[9] + m[10] * 0x100 + m[11] * 0x1_0000 + m[12] * 0x100_0000 == frame.width
            &&& m[13] + m[14] * 0x100 + m[15] * 0x1_0000 + m[16] * 0x100_0000 == frame.height
            &&& m[17] + m[18] * 0x100 + m[19] * 0x1_0000 + m[20] * 0x100_0000 == frame.stride
            &&& m[21 + k] == frame.bgra[k]
        }),
{
    let m = frame_message(surface_id, frame);
    be_round_trip(surface_id.0);
    let b = be_bytes(surface_id.0);
    let id = b.reverse();
    assert(id.len() == 8);
    assert(id[0] == b[7] && id[1] == b[6] && id[2] == b[5] && id[3] == b[4]);
    assert(id[4] == b[3] && id[5] == b[2] && id[6] == b[1] && id[7] == b[0]);
    assert(m[1] == id[0] && m[2] == id[1] && m[3] == id[2] && m[4] == id[3]);
    assert(m[5] == id[4] && m[6] == id[5] && m[7] == id[6] && m[8] == id[7]);
    lemma_le_bytes(frame.width);
    lemma_le_bytes(frame.height);
    lemma_le_bytes(frame.stride);
}

proof fn lemma_le_bytes(n: u32)
    ensures
        le_bytes(n).len() == 4,
        le_bytes(n)[0] + le_bytes(n)[1] * 0x100 + le_bytes(n)[2] * 0x1_0000 + le_bytes(n)[3]
            * 0x100_0000 == n,
{
    let a = n as int;
    let b = a / 256;
    let c = b / 256;
    assert(c == a / 0x1_0000);
    assert(c / 256 == a / 0x100_0000);
}

/// Browsers hear of a window that is new to them or has another title, by its number, title and
/// application; of one that they know nothing new is told.
pub proof fn windows_are_announced(t: Told, info: InfoModel, other: u64)
    requires
        other != info.id.0,
    ensures
        ({
            let after = window_announced(t, info);
            let known = t.titles.contains_key(info.id.0) && t.titles[info.id.0] == info.title;
            &&& after.titles.contains_key(info.id.0)
            &&& after.titles[info.id.0] == info.title
            &&& after.titles.contains_key(other) == t.titles.contains_key(other)
            &&& t.titles.contains_key(other) ==> after.titles[other] == t.titles[other]
            &&& known ==> after.out == t.out
            &&& !known ==> after.out == t.out.push(
                WireModel::Text(json_text(surface_members(info.id, info.title, info.app_id))),
            )
        }),
{
}

/// Browsers hear once of a window that went, if they knew of it.
pub proof fn windows_are_withdrawn(t: Told, surface_id: WlSurfaceId, other: u64)
    requires
        other != surface_id.0,
    ensures
        ({
            let after = window_gone(t, surface_id);
            &&& !after.titles.contains_key(surface_id.0)
            &&& after.titles.contains_key(other) == t.titles.contains_key(other)
            &&& t.titles.contains_key(other) ==> after.titles[other] == t.titles[other]
            &&& after.out == (if t.titles.contains_key(surface_id.0) {
                t.out.push(WireModel::Text(json_text(destroyed_members(surface_id))))
            } else {
                t.out
            })
        }),
{
}

/// What a message tells of a window: that it is about a surface, its number, and its title and
/// application where it has them; of one that went, that it is gone, and its number.
pub proof fn window_messages_name_the_window(
    surface_id: WlSurfaceId,
    title: Option<Seq<char>>,
    app_id: Option<Seq<char>>,
)
    ensures
        ({
            let there = surface_members(surface_id, title, app_id);
            let gone = destroyed_members(surface_id);
            &&& there["type"@] == "surface"@
            &&& there["id"@] == decimal(surface_id.0 as nat)
            &&& there.contains_key("title"@) == (title is Some)
            &&& title is Some ==> there["title"@] == title->0
            &&& there.contains_key("app_id"@) == (app_id is Some)
            &&& app_id is Some ==> there["app_id"@] == app_id->0
            &&& gone["type"@] == "surface_destroyed"@
            &&& gone["id"@] == decimal(surface_id.0 as nat)
            &&& !gone.contains_key("title"@)
        }),
{
    reveal_strlit("type");
    reveal_strlit("id");
    reveal_strlit("title");
    reveal_strlit("app_id");
    assert("type"@.len() == 4 && "id"@.len() == 2 && "title"@.len() == 5 && "app_id"@.len() == 6);
}

/// An update tells, in this order, of the windows that went, of those that changed, and brings the
/// frame of each surface that has one to show.
pub proof fn updates_are_told_in_order(
    t: Told,
    list: ListModel,
    states: Seq<SurfaceModel>,
    gone: Seq<WlSurfaceId>,
    last_gone: WlSurfaceId,
    infos: Seq<InfoModel>,
    info: InfoModel,
    state: SurfaceModel,
)
    ensures
        windows_gone(t, gone.push(last_gone)) == window_gone(windows_gone(t, gone), last_gone),
        windows_announced(t, infos.push(info)) == window_announced(windows_announced(t, infos), info),
        frames_sent(t.out, states.push(state)) == (match state.bitmap {
            Some(Some(bitmap)) if frame_of(bitmap) is Some => frames_sent(t.out, states).push(
                WireModel::Binary(frame_message(state.id, frame_of(bitmap)->0)),
            ),
            _ => frames_sent(t.out, states),
        }),
        windows_gone(t, Seq::empty()) == t,
        windows_announced(t, Seq::empty()) == t,
        frames_sent(t.out, Seq::empty()) == t.out,
        updates_told(t, list, states).out == frames_sent(
            windows_announced(windows_gone(t, list.removed), list.upserts).out,
            states,
        ),
        updates_told(t, list, states).titles == windows_announced(
            windows_gone(t, list.removed),
            list.upserts,
        ).titles,
{
    assert(gone.push(last_gone).drop_last() =~= gone);
    assert(infos.push(info).drop_last() =~= infos);
    assert(states.push(state).drop_last() =~= states);
}

/// The least multiple of a number that is not below another, where there is one.
pub proof fn aligned_values(value: int, alignment: int)
    requires
        0 <= value,
        0 < alignment,
        value + alignment - 1 <= usize::MAX,
    ensures
        aligned_up(value, alignment) % alignment == 0,
        value <= aligned_up(value, alignment) < value + alignment,
{
    let sum = value + alignment - 1;
    vstd::arithmetic::div_mod::lemma_fundamental_div_mod(sum, alignment);
    vstd::arithmetic::div_mod::lemma_mod_multiples_basic(sum / alignment, alignment);
    assert(sum / alignment * alignment == alignment * (sum / alignment)) by (nonlinear_arith);
    vstd::arithmetic::div_mod::lemma_mod_bound(sum, alignment);
}

} // verus!
