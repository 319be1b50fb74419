//! One editing session: the selected device, the loaded container and the
//! selected logo, and the operations that change them in their fixed order.
//!
//! The container's codec is not part of this library. What it parsed comes
//! in as a [`LogoContainer`], whose payload the session keeps and hands back
//! untouched; what it is to do next goes out as a plain value.

use vstd::prelude::*;
use vstd::string::StringExecFns;

use crate::catalog::find_device;
use crate::catalog::Catalog;
use crate::catalog::Device;
use crate::catalog::DeviceView;
use crate::error::ErrorView;
use crate::error::WorkflowError;
use crate::source::decode;
use crate::source::decoded_dimensions;
use crate::source::format_of_file_name;
use crate::source::source_format;
use crate::source::SourceImage;
use crate::text::decimal;
use crate::text::decimal_text;
use crate::text::str_eq;

verus! {

/// The strings of a vector, each as its characters.
pub open spec fn texts(strings: Seq<String>) -> Seq<Seq<char>> {
    strings.map_values(|s: String| s@)
}

/// A parsed logo container: a summary for the user, the identifiers of its
/// logos in the order in which they were parsed, and the codec's own form of
/// the container, which holds the pixel data.
#[derive(Debug)]
pub struct LogoContainer<B> {
    pub summary: String,
    pub identifiers: Vec<String>,
    pub payload: B,
}

/// A [`LogoContainer`] as plain values.
pub struct ContainerView<B> {
    pub summary: Seq<char>,
    pub identifiers: Seq<Seq<char>>,
    pub payload: B,
}

impl<B> View for LogoContainer<B> {
    type V = ContainerView<B>;

    open spec fn view(&self) -> ContainerView<B> {
        ContainerView {
            summary: self.summary@,
            identifiers: texts(self.identifiers@),
            payload: self.payload,
        }
    }
}

/// What a [`Session`] holds, as plain values.
pub struct SessionView<B> {
    pub device: Option<DeviceView>,
    pub container: Option<ContainerView<B>>,
    pub selected_logo: Option<Seq<char>>,
}

impl<B> SessionView<B> {
    /// The session in which nothing is selected or loaded.
    pub open spec fn fresh() -> Self {
        SessionView { device: None, container: None, selected_logo: None }
    }

    /// What holds of every session: a container is loaded only for a
    /// selected device, its identifiers are distinct, and the selected logo
    /// is one of them.
    pub open spec fn consistent(self) -> bool {
        &&& self.container is Some ==> self.device is Some
        &&& self.container matches Some(c) ==> c.identifiers.no_duplicates()
        &&& self.selected_logo matches Some(id) ==> (self.container matches Some(c)
            && c.identifiers.contains(id))
    }

    /// The session after the device with `codename` was asked for: that
    /// device alone, where the catalog has it.
    pub open spec fn select_device(self, catalog: Seq<DeviceView>, codename: Seq<char>) -> Self {
        match find_device(catalog, codename) {
            Some(device) => SessionView {
                device: Some(device),
                container: None,
                selected_logo: None,
            },
            None => self,
        }
    }

    /// The session after the codec's answer `parsed` was taken in: the
    /// container replaces the one before and no logo is selected, where the
    /// answer is accepted.
    pub open spec fn load_container(self, parsed: Result<ContainerView<B>, Seq<char>>) -> Self {
        match load_failure(parsed) {
            None => SessionView {
                device: self.device,
                container: Some(parsed->Ok_0),
                selected_logo: None,
            },
            Some(_) => self,
        }
    }

    /// The session after the logo `id` was asked for: it is selected where
    /// the container has it.
    pub open spec fn select_logo(self, id: Seq<char>) -> Self {
        match logo_failure(self, id) {
            None => SessionView { selected_logo: Some(id), ..self },
            Some(_) => self,
        }
    }

    /// The session with another payload in its container.
    pub open spec fn with_payload(self, payload: B) -> Self {
        SessionView {
            container: Some(ContainerView { payload, ..self.container->0 }),
            ..self
        }
    }
}

/// Why the device with `codename` cannot be selected, if it cannot.
pub open spec fn device_failure(catalog: Seq<DeviceView>, codename: Seq<char>) -> Option<
    ErrorView,
> {
    match find_device(catalog, codename) {
        Some(_) => None,
        None => Some(ErrorView::UnknownDevice(codename)),
    }
}

/// Why the codec's answer gives no container to load, if it gives none: the
/// codec's own reason, or that two logos share an identifier.
pub open spec fn load_failure<B>(parsed: Result<ContainerView<B>, Seq<char>>) -> Option<
    ErrorView,
> {
    match parsed {
        Ok(container) => if container.identifiers.no_duplicates() {
            None
        } else {
            Some(ErrorView::MalformedContainer("Logo identifiers are not unique"@))
        },
        Err(reason) => Some(ErrorView::MalformedContainer(reason)),
    }
}

/// Why the logo `id` cannot be selected, if it cannot.
pub open spec fn logo_failure<B>(session: SessionView<B>, id: Seq<char>) -> Option<ErrorView> {
    if session.container matches Some(c) && c.identifiers.contains(id) {
        None
    } else {
        Some(ErrorView::UnknownLogoId(id))
    }
}

/// What the codec answered, as plain values.
pub open spec fn parsed_view<B>(parsed: Result<LogoContainer<B>, String>) -> Result<
    ContainerView<B>,
    Seq<char>,
> {
    match parsed {
        Ok(container) => Ok(container@),
        Err(reason) => Err(reason@),
    }
}

/// `done` is the success or the failure that `failure` names.
pub open spec fn reports<T>(done: Result<T, WorkflowError>, failure: Option<ErrorView>) -> bool {
    match failure {
        None => done is Ok,
        Some(e) => done matches Err(x) && x@ == e,
    }
}

/// The state of the one editing session.
pub struct Session<B> {
    device: Option<Device>,
    container: Option<LogoContainer<B>>,
    selected_logo: Option<String>,
}

impl<B> View for Session<B> {
    type V = SessionView<B>;

    closed spec fn view(&self) -> SessionView<B> {
        SessionView {
            device: match self.device {
                Some(d) => Some(d@),
                None => None,
            },
            container: match self.container {
                Some(c) => Some(c@),
                None => None,
            },
            selected_logo: match self.selected_logo {
                Some(id) => Some(id@),
                None => None,
            },
        }
    }
}

fn contains_text(strings: &Vec<String>, wanted: &str) -> (found: bool)
    ensures
        found == texts(strings@).contains(wanted@),
{
    let mut i: usize = 0;
    while i < strings.len()
        invariant
            i <= strings.len(),
            forall|k: int| 0 <= k < i ==> (#[trigger] texts(strings@)[k]) != wanted@,
        decreases strings.len() - i,
    {
        if str_eq(strings[i].as_str(), wanted) {
            assert(texts(strings@)[i as int] == wanted@);
            return true;
        }
        i += 1;
    }
    false
}

fn all_distinct(strings: &Vec<String>) -> (distinct: bool)
    ensures
        distinct == texts(strings@).no_duplicates(),
{
    let mut i: usize = 0;
    while i < strings.len()
        invariant
            i <= strings.len(),
            forall|a: int, b: int|
                0 <= a < b < i ==> (#[trigger] texts(strings@)[a]) != (#[trigger] texts(
                    strings@,
                )[b]),
        decreases strings.len() - i,
    {
        let mut j: usize = 0;
        while j < i
            invariant
                j <= i,
                i < strings.len(),
                forall|a: int|
                    0 <= a < j ==> (#[trigger] texts(strings@)[a]) != texts(strings@)[i as int],
            decreases i - j,
        {
            if str_eq(strings[j].as_str(), strings[i].as_str()) {
                assert(texts(strings@)[j as int] == texts(strings@)[i as int]);
                return false;
            }
            j += 1;
        }
        i += 1;
    }
    assert forall|a: int, b: int|
        0 <= a < strings.len() && 0 <= b < strings.len() && a != b implies texts(strings@)[a]
        != texts(strings@)[b] by {
        if a < b {
            assert(texts(strings@)[a] != texts(strings@)[b]);
        } else {
            assert(texts(strings@)[b] != texts(strings@)[a]);
        }
    }
    true
}

fn copy_strings(strings: &Vec<String>) -> (copies: Vec<String>)
    ensures
        texts(copies@) == texts(strings@),
{
    let mut copies: Vec<String> = Vec::new();
    let mut i: usize = 0;
    while i < strings.len()
        invariant
            i <= strings.len(),
            copies.len() == i,
            forall|k: int| 0 <= k < i ==> (#[trigger] copies@[k])@ == strings@[k]@,
        decreases strings.len() - i,
    {
        copies.push(strings[i].clone());
        i += 1;
    }
    assert(texts(copies@) =~= texts(strings@));
    copies
}

fn payload_of<B>(container: &mut Option<LogoContainer<B>>) -> (payload: &mut B)
    requires
        *old(container) is Some,
    ensures
        *payload == old(container)->0.payload,
        *final(container) == Some(
            LogoContainer {
                summary: old(container)->0.summary,
                identifiers: old(container)->0.identifiers,
                payload: *final(payload),
            },
        ),
    no_unwind
{
    match container {
        Some(loaded) => &mut loaded.payload,
        None => vstd::pervasive::unreached(),
    }
}

impl<B> Session<B> {
    #[verifier::type_invariant]
    spec fn inv(self) -> bool {
        self@.consistent()
    }

    /// A session in which nothing is selected or loaded.
    pub fn new() -> (session: Session<B>)
        ensures
            session@ == SessionView::<B>::fresh(),
    {
        Session { device: None, container: None, selected_logo: None }
    }

    /// The selected device.
    pub fn selected_device(&self) -> (device: Option<&Device>)
        ensures
            self@.consistent(),
            match self@.device {
                Some(d) => device matches Some(found) && found@ == d,
                None => device is None,
            },
    {
        proof {
            use_type_invariant(self);
        }
        self.device.as_ref()
    }

    /// The loaded container.
    pub fn container(&self) -> (container: Option<&LogoContainer<B>>)
        ensures
            self@.consistent(),
            match self@.container {
                Some(c) => container matches Some(found) && found@ == c,
                None => container is None,
            },
    {
        proof {
            use_type_invariant(self);
        }
        self.container.as_ref()
    }

    /// The identifier of the selected logo.
    pub fn selected_logo(&self) -> (id: Option<&String>)
        ensures
            self@.consistent(),
            match self@.selected_logo {
                Some(text) => id matches Some(found) && found@ == text,
                None => id is None,
            },
    {
        proof {
            use_type_invariant(self);
        }
        self.selected_logo.as_ref()
    }

    /// The payload of the loaded container, for the codec to change in
    /// place. Whatever is written there, the rest of the session stays.
    pub fn payload_mut(&mut self) -> (payload: &mut B)
        requires
            old(self)@.container is Some,
        ensures
            *payload == old(self)@.container->0.payload,
            final(self)@ == old(self)@.with_payload(*final(payload)),
    {
        proof {
            use_type_invariant(&*self);
        }
        payload_of(&mut self.container)
    }
}

/// What loading a container gives back for display.
#[derive(Debug)]
pub struct LoadReport {
    pub summary: String,
    pub identifiers: Vec<String>,
}

/// The dimensions of an image that differ from those the device expects.
#[derive(Clone, Copy, Debug, PartialEq, Eq, Structural)]
pub struct DimensionMismatch {
    pub width: u32,
    pub height: u32,
    pub expected_width: u32,
    pub expected_height: u32,
}

/// The text of the warning about a [`DimensionMismatch`].
pub open spec fn warning_text(mismatch: DimensionMismatch) -> Seq<char> {
    "Warning: Image have wrong dimensions "@ + decimal_text(mismatch.width as nat) + "x"@
        + decimal_text(mismatch.height as nat) + ", expected "@ + decimal_text(
        mismatch.expected_width as nat,
    ) + "x"@ + decimal_text(mismatch.expected_height as nat)
        + ". Be careful when flashing the generated image to your device."@
}

impl DimensionMismatch {
    /// The warning to show to the user. It does not stop the replacement.
    pub fn message(&self) -> (text: String)
        ensures
            text@ == warning_text(*self),
    {
        let mut text = String::from_str("Warning: Image have wrong dimensions ");
        text.append(decimal(self.width).as_str());
        text.append("x");
        text.append(decimal(self.height).as_str());
        text.append(", expected ");
        text.append(decimal(self.expected_width).as_str());
        text.append("x");
        text.append(decimal(self.expected_height).as_str());
        text.append(". Be careful when flashing the generated image to your device.");
        text
    }
}

/// A replacement that is ready for the codec: the logo to replace, the
/// decoded image, and a warning where its dimensions are not the device's.
#[derive(Debug)]
pub struct Replacement {
    pub logo_id: String,
    pub image: SourceImage,
    pub warning: Option<DimensionMismatch>,
}

/// The warning owed for an image of the given dimensions on a device:
/// none exactly where both are the expected ones.
pub open spec fn dimension_warning(device: DeviceView, width: u32, height: u32) -> Option<
    DimensionMismatch,
> {
    if width != device.width || height != device.height {
        Some(
            DimensionMismatch {
                width,
                height,
                expected_width: device.width,
                expected_height: device.height,
            },
        )
    } else {
        None
    }
}

/// Selects the device with the given codename. A container loaded for an
/// earlier device, and the logo selected in it, are dropped.
pub fn handle_device<B>(session: &mut Session<B>, catalog: &Catalog, codename: &str) -> (done:
    Result<(), WorkflowError>)
    ensures
        final(session)@.consistent(),
        final(session)@ == old(session)@.select_device(catalog@, codename@),
        reports(done, device_failure(catalog@, codename@)),
{
    proof {
        use_type_invariant(&*session);
    }
    match catalog.lookup(codename) {
        Ok(device) => {
            let selected = device.clone();
            session.selected_logo = None;
            session.container = None;
            session.device = Some(selected);
            Ok(())
        },
        Err(e) => Err(e),
    }
}

/// Takes in what the codec made of a buffer, parsed for the selected
/// device: a container, or the reason why the buffer is none. A container
/// whose identifiers are distinct is loaded, and its summary and
/// identifiers are given back in the order in which they were parsed.
pub fn handle_file<B>(session: &mut Session<B>, parsed: Result<LogoContainer<B>, String>) -> (loaded:
    Result<LoadReport, WorkflowError>)
    requires
        old(session)@.device is Some,
    ensures
        final(session)@.consistent(),
        final(session)@ == old(session)@.load_container(parsed_view(parsed)),
        reports(loaded, load_failure(parsed_view(parsed))),
        loaded matches Ok(report) ==> report.summary@ == parsed->Ok_0@.summary && texts(
            report.identifiers@,
        ) == parsed->Ok_0@.identifiers,
{
    proof {
        use_type_invariant(&*session);
    }
    match parsed {
        Ok(container) => {
            if all_distinct(&container.identifiers) {
                let report = LoadReport {
                    summary: container.summary.clone(),
                    identifiers: copy_strings(&container.identifiers),
                };
                session.selected_logo = None;
                session.container = Some(container);
                Ok(report)
            } else {
                Err(
                    WorkflowError::MalformedContainer(
                        String::from_str("Logo identifiers are not unique"),
                    ),
                )
            }
        },
        Err(reason) => Err(WorkflowError::MalformedContainer(reason)),
    }
}

/// Selects the logo with the given identifier in the loaded container.
pub fn handle_logo_id<B>(session: &mut Session<B>, logo_id: String) -> (done: Result<
    (),
    WorkflowError,
>)
    requires
        old(session)@.container is Some,
    ensures
        final(session)@.consistent(),
        final(session)@ == old(session)@.select_logo(logo_id@),
        reports(done, logo_failure(old(session)@, logo_id@)),
{
    proof {
        use_type_invariant(&*session);
    }
    let known = match &session.container {
        Some(container) => contains_text(&container.identifiers, logo_id.as_str()),
        None => false,
    };
    if known {
        session.selected_logo = Some(logo_id);
        Ok(())
    } else {
        Err(WorkflowError::UnknownLogoId(logo_id))
    }
}

/// Pairs a decoded image with the selected logo, and warns where the
/// image's dimensions are not those that the selected device expects.
pub fn plan_replacement<B>(session: &Session<B>, image: SourceImage) -> (plan: Replacement)
    requires
        session@.container is Some,
        session@.selected_logo is Some,
    ensures
        session@.device is Some,
        plan.logo_id@ == session@.selected_logo->0,
        plan.image == image,
        plan.warning == dimension_warning(session@.device->0, image.width, image.height),
{
    proof {
        use_type_invariant(session);
    }
    let logo_id = match &session.selected_logo {
        Some(id) => id.clone(),
        None => String::new(),
    };
    let warning = match &session.device {
        Some(device) => {
            if image.width != device.width || image.height != device.height {
                Some(
                    DimensionMismatch {
                        width: image.width,
                        height: image.height,
                        expected_width: device.width,
                        expected_height: device.height,
                    },
                )
            } else {
                None
            }
        },
        None => None,
    };
    Replacement { logo_id, image, warning }
}

/// Prepares the replacement of the selected logo by the image in `buffer`:
/// tells the format by the file name, decodes the image and compares its
/// dimensions with the device's. The session is not changed.
pub fn handle_image<B>(session: &Session<B>, buffer: &[u8], filename: String) -> (prepared: Result<
    Replacement,
    WorkflowError,
>)
    requires
        session@.container is Some,
        session@.selected_logo is Some,
    ensures
        session@.device is Some,
        match format_of_file_name(filename@) {
            Err(unsupported) => prepared matches Err(e) && e@ == unsupported,
            Ok(format) => match decoded_dimensions(buffer@, format) {
                None => prepared matches Err(e) && e@ is ImageDecode,
                Some(size) => {
                    &&& prepared matches Ok(plan)
                    &&& plan.logo_id@ == session@.selected_logo->0
                    &&& (plan.image.width, plan.image.height) == size
                    &&& plan.warning == dimension_warning(session@.device->0, size.0, size.1)
                },
            },
        },
{
    proof {
        use_type_invariant(session);
    }
    let format = match source_format(filename.as_str()) {
        Ok(format) => format,
        Err(e) => {
            return Err(e);
        },
    };
    match decode(buffer, format) {
        Ok(image) => Ok(plan_replacement(session, image)),
        Err(e) => Err(e),
    }
}

/// The payload of the loaded container, for the codec to write out.
pub fn export_logo_bin<B>(session: &Session<B>) -> (payload: &B)
    requires
        session@.container is Some,
    ensures
        *payload == session@.container->0.payload,
{
    match &session.container {
        Some(container) => &container.payload,
        None => vstd::pervasive::unreached(),
    }
}

/// Every operation leaves a consistent session consistent, whatever it is
/// asked, provided it is asked in order: a container is loaded only once a
/// device is selected.
pub proof fn lemma_operations_keep_sessions_consistent<B>(
    session: SessionView<B>,
    catalog: Seq<DeviceView>,
    codename: Seq<char>,
    parsed: Result<ContainerView<B>, Seq<char>>,
    logo_id: Seq<char>,
    payload: B,
)
    requires
        session.consistent(),
    ensures
        SessionView::<B>::fresh().consistent(),
        session.select_device(catalog, codename).consistent(),
        session.device is Some ==> session.load_container(parsed).consistent(),
        session.select_logo(logo_id).consistent(),
        session.container is Some ==> session.with_payload(payload).consistent(),
{
}

/// An operation that fails leaves the session as it was.
pub proof fn lemma_failure_changes_nothing<B>(
    session: SessionView<B>,
    catalog: Seq<DeviceView>,
    codename: Seq<char>,
    parsed: Result<ContainerView<B>, Seq<char>>,
    logo_id: Seq<char>,
)
    ensures
        device_failure(catalog, codename) is Some ==> session.select_device(catalog, codename)
            == session,
        load_failure(parsed) is Some ==> session.load_container(parsed) == session,
        logo_failure(session, logo_id) is Some ==> session.select_logo(logo_id) == session,
{
}

/// Right after a device was selected, a container is loaded exactly where
/// the codec accepted the buffer and the identifiers it found are distinct.
/// Otherwise the failure is `MalformedContainer`, and no container is
/// loaded.
pub proof fn lemma_load_after_selection<B>(
    session: SessionView<B>,
    catalog: Seq<DeviceView>,
    codename: Seq<char>,
    parsed: Result<ContainerView<B>, Seq<char>>,
)
    requires
        find_device(catalog, codename) is Some,
    ensures
        ({
            let selected = session.select_device(catalog, codename);
            let accepted = parsed matches Ok(c) && c.identifiers.no_duplicates();
            &&& selected.device == find_device(catalog, codename)
            &&& selected.container is None
            &&& load_failure(parsed) is None <==> accepted
            &&& accepted ==> selected.load_container(parsed).container == Some(parsed->Ok_0)
            &&& !accepted ==> load_failure(parsed)->0 is MalformedContainer
                && selected.load_container(parsed).container is None
        }),
{
}

/// Selecting a logo changes nothing but the selection, and a change of the
/// payload changes nothing but the payload: the device, the identifiers and
/// their order stay.
pub proof fn lemma_changes_are_local<B>(session: SessionView<B>, logo_id: Seq<char>, payload: B)
    requires
        session.container is Some,
    ensures
        session.select_logo(logo_id).device == session.device,
        session.select_logo(logo_id).container == session.container,
        session.with_payload(payload).device == session.device,
        session.with_payload(payload).selected_logo == session.selected_logo,
        session.with_payload(payload).container->0.identifiers
            == session.container->0.identifiers,
        session.with_payload(payload).container->0.summary == session.container->0.summary,
{
}

} // verus!
