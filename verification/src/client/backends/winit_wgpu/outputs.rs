//! The monitors the server is told of.
use crate::models::surface::Transform;
use crate::models::surface_model::{clone_text, same_text, text_view};
use crate::protocols::wprs::geometry::{Point, Size};
use crate::protocols::wprs::wayland::{Mode, OutputEvent, OutputInfo, Subpixel};
use vstd::prelude::*;

verus! {

#[verifier::ext_equal]
pub struct OutputModel {
    pub id: u32,
    pub model: Seq<char>,
    pub make: Seq<char>,
    pub location: Point<i32>,
    pub physical_size: Size<i32>,
    pub subpixel: Subpixel,
    pub transform: Transform,
    pub scale_factor: i32,
    pub mode: Mode,
    pub name: Option<Seq<char>>,
    pub description: Option<Seq<char>>,
}

impl View for OutputInfo {
    type V = OutputModel;

    open spec fn view(&self) -> OutputModel {
        OutputModel {
            id: self.id,
            model: self.model@,
            make: self.make@,
            location: self.location,
            physical_size: self.physical_size,
            subpixel: self.subpixel,
            transform: self.transform,
            scale_factor: self.scale_factor,
            mode: self.mode,
            name: text_view(self.name),
            description: text_view(self.description),
        }
    }
}

impl Clone for OutputInfo {
    fn clone(&self) -> (r: Self)
        ensures
            r@ == self@,
    {
        OutputInfo {
            id: self.id,
            model: self.model.clone(),
            make: self.make.clone(),
            location: self.location,
            physical_size: self.physical_size,
            subpixel: self.subpixel,
            transform: self.transform,
            scale_factor: self.scale_factor,
            mode: self.mode,
            name: clone_text(&self.name),
            description: clone_text(&self.description),
        }
    }
}

impl OutputInfo {
    pub fn same(&self, other: &OutputInfo) -> (r: bool)
        ensures
            r == (self@ == other@),
    {
        self.id == other.id && self.model == other.model && self.make == other.make
            && self.location == other.location && self.physical_size == other.physical_size
            && self.subpixel == other.subpixel && self.transform == other.transform
            && self.scale_factor == other.scale_factor && self.mode == other.mode && same_text(
            &self.name,
            &other.name,
        ) && same_text(&self.description, &other.description)
    }
}

/// A monitor as the window system describes it, with its scale rounded to a whole number.
#[derive(Debug)]
pub struct Monitor {
    pub name: Option<String>,
    pub scale_factor: i32,
    pub position: Point<i32>,
    pub width: u32,
    pub height: u32,
}

pub open spec fn at_least_one(n: i32) -> i32 {
    if n < 1 {
        1
    } else {
        n
    }
}

/// The scale that the server is told of: at least one, and at least `least_scale`.
pub open spec fn reported_scale(scale: i32, least_scale: i32) -> i32 {
    if at_least_one(scale) < least_scale {
        least_scale
    } else {
        at_least_one(scale)
    }
}

/// By how much a monitor is enlarged. The logical size stays, since both the mode and the scale
/// grow.
pub open spec fn enlargement(scale: i32, least_scale: i32) -> int {
    reported_scale(scale, least_scale) as int / at_least_one(scale) as int
}

pub open spec fn output_of(id: u32, monitor: Monitor, least_scale: i32) -> OutputModel {
    let by = enlargement(monitor.scale_factor, least_scale);
    OutputModel {
        id,
        model: match monitor.name {
            Some(name) => name@,
            None => Seq::empty(),
        },
        make: Seq::empty(),
        location: Point {
            x: (monitor.position.x * by) as i32,
            y: (monitor.position.y * by) as i32,
        },
        physical_size: Size { w: 0, h: 0 },
        subpixel: Subpixel::Unknown,
        transform: Transform::Normal,
        scale_factor: reported_scale(monitor.scale_factor, least_scale),
        mode: Mode {
            dimensions: Size {
                w: ((monitor.width * by) as u32) as i32,
                h: ((monitor.height * by) as u32) as i32,
            },
            refresh_rate: 60_000,
            current: true,
            preferred: true,
        },
        name: text_view(monitor.name),
        description: None,
    }
}

/// Whether the position and the mode of a monitor can be told once it is enlarged.
pub open spec fn fits_enlarged(monitor: Monitor, least_scale: i32) -> bool {
    let by = enlargement(monitor.scale_factor, least_scale);
    &&& i32::MIN <= monitor.position.x * by <= i32::MAX
    &&& i32::MIN <= monitor.position.y * by <= i32::MAX
    &&& monitor.width * by <= u32::MAX
    &&& monitor.height * by <= u32::MAX
}

fn scale_and_enlargement(scale: i32, least_scale: i32) -> (r: (i32, u32))
    ensures
        r.0 == reported_scale(scale, least_scale),
        r.1 == enlargement(scale, least_scale),
        1 <= r.1 <= i32::MAX,
{
    let own_scale: i32 = if scale < 1 {
        1
    } else {
        scale
    };
    let scale_factor: i32 = if own_scale < least_scale {
        least_scale
    } else {
        own_scale
    };
    proof {
        let (own, reported) = (own_scale as int, scale_factor as int);
        assert(1 <= reported / own <= reported) by (nonlinear_arith)
            requires
                1 <= own <= reported,
        ;
    }
    (scale_factor, scale_factor as u32 / own_scale as u32)
}

pub fn can_be_enlarged(monitor: &Monitor, least_scale: i32) -> (r: bool)
    ensures
        r == fits_enlarged(*monitor, least_scale),
{
    let (_, by) = scale_and_enlargement(monitor.scale_factor, least_scale);
    monitor.position.x.checked_mul(by as i32).is_some() && monitor.position.y.checked_mul(
        by as i32,
    ).is_some() && monitor.width.checked_mul(by).is_some() && monitor.height.checked_mul(
        by,
    ).is_some()
}

/// What the server is told of a monitor, whose scale is at least `least_scale`.
pub fn output_info_from_monitor(id: u32, monitor: &Monitor, least_scale: i32) -> (r: OutputInfo)
    requires
        fits_enlarged(*monitor, least_scale),
    ensures
        r@ == output_of(id, *monitor, least_scale),
{
    let (scale_factor, multiplier) = scale_and_enlargement(monitor.scale_factor, least_scale);
    let position = Point {
        x: monitor.position.x * multiplier as i32,
        y: monitor.position.y * multiplier as i32,
    };
    let width: u32 = monitor.width * multiplier;
    let height: u32 = monitor.height * multiplier;
    let model = match &monitor.name {
        Some(name) => name.clone(),
        None => String::new(),
    };
    let r = OutputInfo {
        id,
        model,
        make: String::new(),
        location: position,
        physical_size: Size { w: 0, h: 0 },
        subpixel: Subpixel::Unknown,
        transform: Transform::Normal,
        scale_factor,
        mode: Mode {
            dimensions: Size { w: width as i32, h: height as i32 },
            refresh_rate: 60_000,
            current: true,
            preferred: true,
        },
        name: clone_text(&monitor.name),
        description: None,
    };
    assert(r@ =~= output_of(id, *monitor, least_scale));
    r
}

/// The server is told of no scale below the floor, nor below one, and of the monitor's own scale
/// where that is not below either.
pub proof fn reported_scales_keep_the_floor(id: u32, monitor: Monitor, least_scale: i32)
    ensures
        output_of(id, monitor, least_scale).scale_factor >= least_scale,
        output_of(id, monitor, least_scale).scale_factor >= 1,
        monitor.scale_factor >= least_scale && monitor.scale_factor >= 1 ==> output_of(
            id,
            monitor,
            least_scale,
        ).scale_factor == monitor.scale_factor,
{
}

#[verifier::ext_equal]
pub enum OutputEventModel {
    New(OutputModel),
    Update(OutputModel),
    Destroy(OutputModel),
}

impl View for OutputEvent {
    type V = OutputEventModel;

    open spec fn view(&self) -> OutputEventModel {
        match *self {
            OutputEvent::New(info) => OutputEventModel::New(info@),
            OutputEvent::Update(info) => OutputEventModel::Update(info@),
            OutputEvent::Destroy(info) => OutputEventModel::Destroy(info@),
        }
    }
}

pub open spec fn output_models(outputs: Seq<OutputInfo>) -> Seq<OutputModel> {
    Seq::new(outputs.len(), |i: int| outputs[i]@)
}

pub open spec fn event_models(events: Seq<OutputEvent>) -> Seq<OutputEventModel> {
    Seq::new(events.len(), |i: int| events[i]@)
}

/// Updates for those of the first `n` outputs that changed.
pub open spec fn changed_outputs(
    current: Seq<OutputModel>,
    last: Seq<OutputModel>,
    n: int,
) -> Seq<OutputEventModel>
    decreases n,
{
    if n <= 0 {
        Seq::empty()
    } else if current[n - 1] != last[n - 1] {
        changed_outputs(current, last, n - 1).push(OutputEventModel::Update(current[n - 1]))
    } else {
        changed_outputs(current, last, n - 1)
    }
}

/// The events that tell how one list of outputs became another.
pub open spec fn output_events(current: Seq<OutputModel>, last: Seq<OutputModel>) -> Seq<
    OutputEventModel,
> {
    let shared = if current.len() < last.len() {
        current.len()
    } else {
        last.len()
    } as int;
    changed_outputs(current, last, shared) + Seq::new(
        (current.len() - shared) as nat,
        |i: int| OutputEventModel::New(current[shared + i]),
    ) + Seq::new(
        (last.len() - shared) as nat,
        |i: int| OutputEventModel::Destroy(last[shared + i]),
    )
}

fn same_outputs(a: &Vec<OutputInfo>, b: &Vec<OutputInfo>) -> (r: bool)
    ensures
        r == (output_models(a@) == output_models(b@)),
{
    if a.len() != b.len() {
        assert(output_models(a@).len() != output_models(b@).len());
        return false;
    }
    let mut i: usize = 0;
    while i < a.len()
        invariant
            a@.len() == b@.len(),
            i <= a@.len(),
            forall|j: int| 0 <= j < i ==> (#[trigger] a@[j])@ == b@[j]@,
        decreases a@.len() - i,
    {
        if !a[i].same(&b[i]) {
            assert(output_models(a@)[i as int] != output_models(b@)[i as int]);
            return false;
        }
        i = i + 1;
    }
    assert(output_models(a@) =~= output_models(b@));
    true
}

/// The events that tell the server how the outputs changed: none where they did not, unless they
/// are to be told anyway.
pub fn refresh_outputs(last: &Vec<OutputInfo>, current: &Vec<OutputInfo>, force: bool) -> (r: Vec<
    OutputEvent,
>)
    ensures
        event_models(r@) == (if !force && output_models(current@) == output_models(last@) {
            Seq::empty()
        } else {
            output_events(output_models(current@), output_models(last@))
        }),
{
    let mut events: Vec<OutputEvent> = Vec::new();
    let ghost cur = output_models(current@);
    let ghost old = output_models(last@);
    if !force && same_outputs(current, last) {
        assert(event_models(events@) =~= Seq::empty());
        return events;
    }
    let shared: usize = if current.len() < last.len() {
        current.len()
    } else {
        last.len()
    };
    let mut i: usize = 0;
    assert(event_models(events@) =~= changed_outputs(cur, old, 0));
    while i < shared
        invariant
            i <= shared,
            shared <= current@.len(),
            shared <= last@.len(),
            cur == output_models(current@),
            old == output_models(last@),
            event_models(events@) == changed_outputs(cur, old, i as int),
        decreases shared - i,
    {
        if !current[i].same(&last[i]) {
            let ghost before = event_models(events@);
            let event = OutputEvent::Update(current[i].clone());
            events.push(event);
            assert(event_models(events@) =~= before.push(OutputEventModel::Update(cur[i as int])));
        }
        i = i + 1;
    }
    let ghost told = changed_outputs(cur, old, shared as int);
    let ghost news = Seq::new(
        (cur.len() - shared) as nat,
        |i: int| OutputEventModel::New(cur[shared + i]),
    );
    assert(event_models(events@) =~= told + news.subrange(0, 0));
    let mut i: usize = shared;
    while i < current.len()
        invariant
            shared <= i <= current@.len(),
            cur == output_models(current@),
            news == Seq::new(
                (cur.len() - shared) as nat,
                |i: int| OutputEventModel::New(cur[shared + i]),
            ),
            event_models(events@) == told + news.subrange(0, i - shared),
        decreases current@.len() - i,
    {
        let ghost before = event_models(events@);
        events.push(OutputEvent::New(current[i].clone()));
        i = i + 1;
        assert(event_models(events@) =~= before.push(news[i - shared - 1]));
        assert(news.subrange(0, i - shared) =~= news.subrange(0, i - shared - 1).push(
            news[i - shared - 1],
        ));
        assert(event_models(events@) =~= told + news.subrange(0, i - shared));
    }
    assert(news.subrange(0, i - shared) =~= news);
    let ghost gone = Seq::new(
        (old.len() - shared) as nat,
        |i: int| OutputEventModel::Destroy(old[shared + i]),
    );
    assert(event_models(events@) =~= told + news + gone.subrange(0, 0));
    let mut i: usize = shared;
    while i < last.len()
        invariant
            shared <= i <= last@.len(),
            old == output_models(last@),
            gone == Seq::new(
                (old.len() - shared) as nat,
                |i: int| OutputEventModel::Destroy(old[shared + i]),
            ),
            event_models(events@) == told + news + gone.subrange(0, i - shared),
        decreases last@.len() - i,
    {
        let ghost before = event_models(events@);
        events.push(OutputEvent::Destroy(last[i].clone()));
        i = i + 1;
        assert(event_models(events@) =~= before.push(gone[i - shared - 1]));
        assert(gone.subrange(0, i - shared) =~= gone.subrange(0, i - shared - 1).push(
            gone[i - shared - 1],
        ));
        assert(event_models(events@) =~= told + news + gone.subrange(0, i - shared));
    }
    assert(gone.subrange(0, i - shared) =~= gone);
    events
}

/// What a list of outputs becomes when the server takes an event into account. Outputs are
/// identified by their place in the list.
pub open spec fn after_event(outputs: Seq<OutputModel>, event: OutputEventModel) -> Seq<OutputModel> {
    match event {
        OutputEventModel::New(info) => outputs.push(info),
        OutputEventModel::Update(info) => outputs.update(info.id as int, info),
        OutputEventModel::Destroy(info) => outputs.drop_last(),
    }
}

pub open spec fn after_events(outputs: Seq<OutputModel>, events: Seq<OutputEventModel>) -> Seq<
    OutputModel,
>
    decreases events.len(),
{
    if events.len() == 0 {
        outputs
    } else {
        after_event(after_events(outputs, events.drop_last()), events.last())
    }
}

pub open spec fn numbered(outputs: Seq<OutputModel>) -> bool {
    forall|i: int| 0 <= i < outputs.len() ==> (#[trigger] outputs[i]).id == i
}

proof fn lemma_after_changes(current: Seq<OutputModel>, last: Seq<OutputModel>, n: int)
    requires
        numbered(current),
        0 <= n <= current.len(),
        n <= last.len(),
    ensures
        after_events(last, changed_outputs(current, last, n)) == current.subrange(0, n)
            + last.subrange(n, last.len() as int),
    decreases n,
{
    if n > 0 {
        lemma_after_changes(current, last, n - 1);
        let before = changed_outputs(current, last, n - 1);
        let now = changed_outputs(current, last, n);
        if current[n - 1] != last[n - 1] {
            assert(now.drop_last() =~= before);
        }
        assert(after_events(last, now) =~= current.subrange(0, n) + last.subrange(
            n,
            last.len() as int,
        ));
    } else {
        assert(after_events(last, changed_outputs(current, last, n)) =~= current.subrange(0, n)
            + last.subrange(n, last.len() as int));
    }
}

proof fn lemma_after_two(outputs: Seq<OutputModel>, a: Seq<OutputEventModel>, b: Seq<OutputEventModel>)
    ensures
        after_events(outputs, a + b) == after_events(after_events(outputs, a), b),
    decreases b.len(),
{
    if b.len() == 0 {
        assert(a + b =~= a);
    } else {
        assert((a + b).drop_last() =~= a + b.drop_last());
        lemma_after_two(outputs, a, b.drop_last());
    }
}

proof fn lemma_after_news(outputs: Seq<OutputModel>, added: Seq<OutputModel>)
    ensures
        after_events(
            outputs,
            Seq::new(added.len(), |i: int| OutputEventModel::New(added[i])),
        ) == outputs + added,
    decreases added.len(),
{
    let events = Seq::new(added.len(), |i: int| OutputEventModel::New(added[i]));
    if added.len() == 0 {
        assert(outputs + added =~= outputs);
    } else {
        lemma_after_news(outputs, added.drop_last());
        assert(events.drop_last() =~= Seq::new(
            added.drop_last().len(),
            |i: int| OutputEventModel::New(added.drop_last()[i]),
        ));
        assert((outputs + added.drop_last()).push(added.last()) =~= outputs + added);
    }
}

proof fn lemma_after_destroys(outputs: Seq<OutputModel>, gone: Seq<OutputModel>)
    requires
        gone.len() <= outputs.len(),
    ensures
        after_events(
            outputs,
            Seq::new(gone.len(), |i: int| OutputEventModel::Destroy(gone[i])),
        ) == outputs.subrange(0, outputs.len() - gone.len()),
    decreases gone.len(),
{
    let events = Seq::new(gone.len(), |i: int| OutputEventModel::Destroy(gone[i]));
    if gone.len() == 0 {
        assert(outputs.subrange(0, outputs.len() as int) =~= outputs);
    } else {
        lemma_after_destroys(outputs, gone.drop_last());
        assert(events.drop_last() =~= Seq::new(
            gone.drop_last().len(),
            |i: int| OutputEventModel::Destroy(gone.drop_last()[i]),
        ));
        assert(outputs.subrange(0, outputs.len() - gone.len() + 1).drop_last() =~= outputs.subrange(
            0,
            outputs.len() - gone.len(),
        ));
    }
}

/// A server that takes the events into account ends up with the outputs there are.
pub proof fn events_bring_the_server_up_to_date(current: Seq<OutputModel>, last: Seq<OutputModel>)
    requires
        numbered(current),
    ensures
        after_events(last, output_events(current, last)) == current,
{
    let shared = if current.len() < last.len() {
        current.len()
    } else {
        last.len()
    } as int;
    let told = changed_outputs(current, last, shared);
    let added = current.subrange(shared, current.len() as int);
    let gone = last.subrange(shared, last.len() as int);
    let news = Seq::new(
        (current.len() - shared) as nat,
        |i: int| OutputEventModel::New(current[shared + i]),
    );
    let destroys = Seq::new(
        (last.len() - shared) as nat,
        |i: int| OutputEventModel::Destroy(last[shared + i]),
    );
    assert(news =~= Seq::new(added.len(), |i: int| OutputEventModel::New(added[i])));
    assert(destroys =~= Seq::new(gone.len(), |i: int| OutputEventModel::Destroy(gone[i])));
    lemma_after_changes(current, last, shared);
    let x = current.subrange(0, shared) + last.subrange(shared, last.len() as int);
    lemma_after_two(last, told + news, destroys);
    lemma_after_two(last, told, news);
    lemma_after_news(x, added);
    lemma_after_destroys(x + added, gone);
    assert((x + added).subrange(0, (x + added).len() - gone.len()) =~= current);
}

/// What the server is told of a monitor: its name, and a mode and a place that are larger than the
/// monitor's by the same factor as the scale, so that the logical size stays.
#[verifier::rlimit(40)]
pub proof fn outputs_keep_their_logical_size(id: u32, monitor: Monitor, least_scale: i32)
    requires
        fits_enlarged(monitor, least_scale),
        monitor.scale_factor >= 1,
        least_scale >= 1,
        least_scale % monitor.scale_factor == 0 || least_scale <= monitor.scale_factor,
        enlargement(monitor.scale_factor, least_scale) * monitor.width <= i32::MAX,
        enlargement(monitor.scale_factor, least_scale) * monitor.height <= i32::MAX,
    ensures
        ({
            let output = output_of(id, monitor, least_scale);
            let scale = monitor.scale_factor as int;
            &&& output.id == id
            &&& output.mode.dimensions.w * scale == monitor.width * output.scale_factor
            &&& output.mode.dimensions.h * scale == monitor.height * output.scale_factor
            &&& output.location.x * scale == monitor.position.x * output.scale_factor
            &&& output.location.y * scale == monitor.position.y * output.scale_factor
            &&& output.mode.refresh_rate == 60_000
            &&& output.mode.current && output.mode.preferred
            &&& monitor.name matches Some(name) ==> output.model == name@ && output.name == Some(
                name@,
            )
            &&& monitor.name is None ==> output.model.len() == 0 && output.name is None
        }),
{
    let scale = monitor.scale_factor as int;
    let told = reported_scale(monitor.scale_factor, least_scale) as int;
    let by = enlargement(monitor.scale_factor, least_scale);
    assert(told % scale == 0) by {
        if least_scale <= monitor.scale_factor {
            assert(scale % scale == 0) by (nonlinear_arith)
                requires
                    scale >= 1,
            ;
        }
    }
    assert(by * scale == told) by (nonlinear_arith)
        requires
            scale >= 1,
            told % scale == 0,
            by == told / scale,
    ;
    assert((monitor.width * by) * scale == monitor.width * told) by (nonlinear_arith)
        requires
            by * scale == told,
    ;
    assert((monitor.height * by) * scale == monitor.height * told) by (nonlinear_arith)
        requires
            by * scale == told,
    ;
    assert((monitor.position.x * by) * scale == monitor.position.x * told) by (nonlinear_arith)
        requires
            by * scale == told,
    ;
    assert((monitor.position.y * by) * scale == monitor.position.y * told) by (nonlinear_arith)
        requires
            by * scale == told,
    ;
    assert(monitor.width * by == by * monitor.width && monitor.height * by == by * monitor.height
        && by >= 0) by (nonlinear_arith)
        requires
            scale >= 1,
            told >= 0,
            by == told / scale,
    ;
    assert(monitor.width * by >= 0 && monitor.height * by >= 0) by (nonlinear_arith)
        requires
            by >= 0,
    ;
}

} // verus!
