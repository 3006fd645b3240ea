//! The Bluetooth adapter of the device that the application runs on.

use crate::device::BluetoothDevice;
use crate::error;
use crate::error::{jerr, BluetoothError, Jerr};
use crate::java::{Command, JavaMethod, JavaText, JniError, ObjectId, Reply, Target, Want};
use crate::operation;
use crate::operation::{Explained, Operation, Progress, Protocol, Stage, Trouble};
use crate::query::{ask, Query, QueryStage};
use vstd::prelude::*;

verus! {

/// Getting the adapter from the Bluetooth service.
#[derive(Clone, Copy, PartialEq, Eq, Structural, Debug)]
pub enum GetAdapterStage {
    Attaching,
    /// Making a Java string of the name of the service.
    Naming,
    /// Getting the service.
    Serving,
    /// Getting the adapter.
    Getting,
    /// Keeping the adapter.
    Keeping,
}

pub type GetAdapter = Explained<GetAdapterStage>;

impl Stage for GetAdapterStage {
    type Output = ObjectId;

    open spec fn stage_wanted(self) -> Want {
        match self {
            GetAdapterStage::Attaching => Want::Attempt,
            _ => Want::Object,
        }
    }

    open spec fn stage_next(self, reply: Reply) -> Progress<Self, Result<ObjectId, Trouble>> {
        match (self, reply) {
            (GetAdapterStage::Attaching, Reply::Done) => Progress::Call(
                GetAdapterStage::Naming,
                Command::NewString(JavaText::BluetoothService),
            ),
            (GetAdapterStage::Naming, Reply::Object(service)) => Progress::Call(
                GetAdapterStage::Serving,
                Command::CallObject {
                    target: Target::Context,
                    method: JavaMethod::GetSystemService,
                    argument: Some(service),
                },
            ),
            (GetAdapterStage::Serving, Reply::Object(manager)) => if manager.is_null() {
                Progress::Finish(Err(Trouble::Known(BluetoothError::NoBluetoothService)))
            } else {
                Progress::Call(
                    GetAdapterStage::Getting,
                    Command::CallObject {
                        target: Target::Object(manager),
                        method: JavaMethod::GetAdapter,
                        argument: None,
                    },
                )
            },
            (GetAdapterStage::Getting, Reply::Object(object)) => if object.is_null() {
                Progress::Finish(Err(Trouble::Known(BluetoothError::NoAdapter)))
            } else {
                Progress::Call(
                    GetAdapterStage::Keeping,
                    Command::NewGlobalRef { object, checked: false },
                )
            },
            (GetAdapterStage::Keeping, Reply::Object(adapter)) => Progress::Finish(Ok(adapter)),
            (_, Reply::Failed(failure)) => Progress::Finish(Err(Trouble::Failed(failure))),
            _ => arbitrary(),
        }
    }

    fn stage_want(&self) -> (want: Want) {
        match self {
            GetAdapterStage::Attaching => Want::Attempt,
            _ => Want::Object,
        }
    }

    fn stage_step(self, reply: Reply) -> (progress: Progress<Self, Result<ObjectId, Trouble>>) {
        match (self, reply) {
            (GetAdapterStage::Attaching, Reply::Done) => Progress::Call(
                GetAdapterStage::Naming,
                Command::NewString(JavaText::BluetoothService),
            ),
            (GetAdapterStage::Naming, Reply::Object(service)) => Progress::Call(
                GetAdapterStage::Serving,
                Command::CallObject {
                    target: Target::Context,
                    method: JavaMethod::GetSystemService,
                    argument: Some(service),
                },
            ),
            (GetAdapterStage::Serving, Reply::Object(manager)) => if manager.is_null() {
                Progress::Finish(Err(Trouble::Known(BluetoothError::NoBluetoothService)))
            } else {
                Progress::Call(
                    GetAdapterStage::Getting,
                    Command::CallObject {
                        target: Target::Object(manager),
                        method: JavaMethod::GetAdapter,
                        argument: None,
                    },
                )
            },
            (GetAdapterStage::Getting, Reply::Object(object)) => if object.is_null() {
                Progress::Finish(Err(Trouble::Known(BluetoothError::NoAdapter)))
            } else {
                Progress::Call(
                    GetAdapterStage::Keeping,
                    Command::NewGlobalRef { object, checked: false },
                )
            },
            (GetAdapterStage::Keeping, Reply::Object(adapter)) => Progress::Finish(Ok(adapter)),
            (_, Reply::Failed(failure)) => Progress::Finish(Err(Trouble::Failed(failure))),
            _ => vstd::pervasive::unreached(),
        }
    }
}

/// The conversation of [`get_bluetooth_adapter`] at its start.
pub open spec fn getting_adapter() -> Progress<GetAdapter, Result<ObjectId, BluetoothError>> {
    Progress::Call(Explained::Running(GetAdapterStage::Attaching), Command::AttachVm)
}

/// Gets a global reference of the Bluetooth adapter.
pub fn get_bluetooth_adapter() -> (progress: Progress<
    GetAdapter,
    Result<ObjectId, BluetoothError>,
>)
    ensures
        progress == getting_adapter(),
{
    Progress::Call(Explained::Running(GetAdapterStage::Attaching), Command::AttachVm)
}

/// Finding the adapter: the one that is remembered, or else a new one.
#[derive(Debug)]
pub enum FindAdapterStage {
    /// Asking for the one that is remembered.
    Looking,
    /// None is remembered.
    Getting(GetAdapter),
    /// Remembering the new one.
    Caching,
}

pub type FindAdapter = Explained<FindAdapterStage>;

impl FindAdapterStage {
    pub open spec fn of_get(
        progress: Progress<GetAdapter, Result<ObjectId, BluetoothError>>,
    ) -> Progress<Self, Result<ObjectId, Trouble>> {
        match progress {
            Progress::Call(get, command) => Progress::Call(FindAdapterStage::Getting(get), command),
            Progress::Finish(Ok(adapter)) => Progress::Call(
                FindAdapterStage::Caching,
                Command::CacheAdapter(adapter),
            ),
            Progress::Finish(Err(error)) => Progress::Finish(Err(Trouble::Known(error))),
        }
    }

    fn from_get(progress: Progress<GetAdapter, Result<ObjectId, BluetoothError>>) -> (found:
        Progress<Self, Result<ObjectId, Trouble>>)
        ensures
            found == Self::of_get(progress),
    {
        match progress {
            Progress::Call(get, command) => Progress::Call(FindAdapterStage::Getting(get), command),
            Progress::Finish(Ok(adapter)) => Progress::Call(
                FindAdapterStage::Caching,
                Command::CacheAdapter(adapter),
            ),
            Progress::Finish(Err(error)) => Progress::Finish(Err(Trouble::Known(error))),
        }
    }
}

impl Stage for FindAdapterStage {
    type Output = ObjectId;

    open spec fn stage_wanted(self) -> Want {
        match self {
            FindAdapterStage::Looking => Want::Found,
            FindAdapterStage::Getting(get) => get.wanted(),
            FindAdapterStage::Caching => Want::Held,
        }
    }

    open spec fn stage_next(self, reply: Reply) -> Progress<Self, Result<ObjectId, Trouble>> {
        match (self, reply) {
            (FindAdapterStage::Looking, Reply::Found(Some(adapter))) => Progress::Finish(
                Ok(adapter),
            ),
            (FindAdapterStage::Looking, _) => Self::of_get(getting_adapter()),
            (FindAdapterStage::Getting(get), _) => Self::of_get(get.next(reply)),
            (FindAdapterStage::Caching, Reply::Object(adapter)) => Progress::Finish(Ok(adapter)),
            _ => arbitrary(),
        }
    }

    fn stage_want(&self) -> (want: Want) {
        match self {
            FindAdapterStage::Looking => Want::Found,
            FindAdapterStage::Getting(get) => get.want(),
            FindAdapterStage::Caching => Want::Held,
        }
    }

    fn stage_step(self, reply: Reply) -> (progress: Progress<Self, Result<ObjectId, Trouble>>) {
        match (self, reply) {
            (FindAdapterStage::Looking, Reply::Found(Some(adapter))) => Progress::Finish(
                Ok(adapter),
            ),
            (FindAdapterStage::Looking, _) => Self::from_get(get_bluetooth_adapter()),
            (FindAdapterStage::Getting(get), reply) => Self::from_get(get.step(reply)),
            (FindAdapterStage::Caching, Reply::Object(adapter)) => Progress::Finish(Ok(adapter)),
            _ => vstd::pervasive::unreached(),
        }
    }
}

/// The conversation of [`bluetooth_adapter`] at its start.
pub open spec fn finding_adapter() -> Progress<FindAdapter, Result<ObjectId, BluetoothError>> {
    Progress::Call(Explained::Running(FindAdapterStage::Looking), Command::CachedAdapter)
}

/// Finds the global reference of the thread safe `android.bluetooth.BluetoothAdapter`,
/// which is created only once.
pub fn bluetooth_adapter() -> (progress: Progress<FindAdapter, Result<ObjectId, BluetoothError>>)
    ensures
        progress == finding_adapter(),
{
    Progress::Call(Explained::Running(FindAdapterStage::Looking), Command::CachedAdapter)
}

/// Asking whether Bluetooth is enabled.
#[derive(Debug)]
pub enum IsEnabledStage {
    Finding(FindAdapter),
    Asking(Query),
}

pub type IsEnabled = Explained<IsEnabledStage>;

impl IsEnabledStage {
    pub open spec fn of_find(
        progress: Progress<FindAdapter, Result<ObjectId, BluetoothError>>,
    ) -> Progress<Self, Result<bool, Trouble>> {
        match progress {
            Progress::Call(find, command) => Progress::Call(IsEnabledStage::Finding(find), command),
            Progress::Finish(Ok(adapter)) => Self::of_query(
                QueryStage::asked(Target::Object(adapter), JavaMethod::IsEnabled),
            ),
            Progress::Finish(Err(error)) => Progress::Finish(Err(Trouble::Known(error))),
        }
    }

    pub open spec fn of_query(progress: Progress<Query, Result<bool, BluetoothError>>) -> Progress<
        Self,
        Result<bool, Trouble>,
    > {
        match progress {
            Progress::Call(query, command) => Progress::Call(
                IsEnabledStage::Asking(query),
                command,
            ),
            Progress::Finish(Ok(enabled)) => Progress::Finish(Ok(enabled)),
            Progress::Finish(Err(error)) => Progress::Finish(Err(Trouble::Known(error))),
        }
    }

    fn from_find(progress: Progress<FindAdapter, Result<ObjectId, BluetoothError>>) -> (found:
        Progress<Self, Result<bool, Trouble>>)
        ensures
            found == Self::of_find(progress),
    {
        match progress {
            Progress::Call(find, command) => Progress::Call(IsEnabledStage::Finding(find), command),
            Progress::Finish(Ok(adapter)) => Self::from_query(
                ask(Target::Object(adapter), JavaMethod::IsEnabled),
            ),
            Progress::Finish(Err(error)) => Progress::Finish(Err(Trouble::Known(error))),
        }
    }

    fn from_query(progress: Progress<Query, Result<bool, BluetoothError>>) -> (asked: Progress<
        Self,
        Result<bool, Trouble>,
    >)
        ensures
            asked == Self::of_query(progress),
    {
        match progress {
            Progress::Call(query, command) => Progress::Call(
                IsEnabledStage::Asking(query),
                command,
            ),
            Progress::Finish(Ok(enabled)) => Progress::Finish(Ok(enabled)),
            Progress::Finish(Err(error)) => Progress::Finish(Err(Trouble::Known(error))),
        }
    }
}

impl Stage for IsEnabledStage {
    type Output = bool;

    open spec fn stage_wanted(self) -> Want {
        match self {
            IsEnabledStage::Finding(find) => find.wanted(),
            IsEnabledStage::Asking(query) => query.wanted(),
        }
    }

    open spec fn stage_next(self, reply: Reply) -> Progress<Self, Result<bool, Trouble>> {
        match self {
            IsEnabledStage::Finding(find) => Self::of_find(find.next(reply)),
            IsEnabledStage::Asking(query) => Self::of_query(query.next(reply)),
        }
    }

    fn stage_want(&self) -> (want: Want) {
        match self {
            IsEnabledStage::Finding(find) => find.want(),
            IsEnabledStage::Asking(query) => query.want(),
        }
    }

    fn stage_step(self, reply: Reply) -> (progress: Progress<Self, Result<bool, Trouble>>) {
        match self {
            IsEnabledStage::Finding(find) => Self::from_find(find.step(reply)),
            IsEnabledStage::Asking(query) => Self::from_query(query.step(reply)),
        }
    }
}

/// The conversation of [`is_enabled`] at its start.
pub open spec fn asking_enabled() -> Progress<IsEnabled, Result<bool, BluetoothError>> {
    Explained::of(IsEnabledStage::of_find(finding_adapter()))
}

/// Finds out whether Bluetooth is currently enabled and ready for use.
pub fn is_enabled() -> (progress: Progress<IsEnabled, Result<bool, BluetoothError>>)
    ensures
        progress == asking_enabled(),
{
    Explained::from_stage(IsEnabledStage::from_find(bluetooth_adapter()))
}

/// Collecting the bonded devices.
#[derive(Debug)]
pub enum GetBondedDevices {
    Checking(IsEnabled),
    Finding(FindAdapter),
    Attaching { adapter: ObjectId },
    /// Getting the set of devices.
    Listing,
    /// Making an array of the set.
    Arraying,
    /// Asking for the length of the array.
    Measuring { array: ObjectId },
    /// Getting the element at the index.
    Collecting { array: ObjectId, index: i32, len: i32, devices: Vec<BluetoothDevice> },
    Explaining(Jerr),
}

/// What a [`GetBondedDevices`] holds.
#[verifier::ext_equal]
pub enum GetBondedModel {
    Checking(IsEnabled),
    Finding(FindAdapter),
    Attaching { adapter: ObjectId },
    Listing,
    Arraying,
    Measuring { array: ObjectId },
    Collecting { array: ObjectId, index: i32, len: i32, devices: Seq<BluetoothDevice> },
    Explaining(Jerr),
}

impl View for GetBondedDevices {
    type V = GetBondedModel;

    open spec fn view(&self) -> GetBondedModel {
        match *self {
            GetBondedDevices::Checking(op) => GetBondedModel::Checking(op),
            GetBondedDevices::Finding(op) => GetBondedModel::Finding(op),
            GetBondedDevices::Attaching { adapter } => GetBondedModel::Attaching { adapter },
            GetBondedDevices::Listing => GetBondedModel::Listing,
            GetBondedDevices::Arraying => GetBondedModel::Arraying,
            GetBondedDevices::Measuring { array } => GetBondedModel::Measuring { array },
            GetBondedDevices::Collecting { array, index, len, devices } =>
                GetBondedModel::Collecting { array, index, len, devices: devices@ },
            GetBondedDevices::Explaining(op) => GetBondedModel::Explaining(op),
        }
    }
}

/// What the progress of a [`GetBondedDevices`] holds.
pub open spec fn bonded_view(
    progress: Progress<GetBondedDevices, Result<Vec<BluetoothDevice>, BluetoothError>>,
) -> Progress<GetBondedModel, Result<Seq<BluetoothDevice>, BluetoothError>> {
    match progress {
        Progress::Call(op, command) => Progress::Call(op@, command),
        Progress::Finish(Ok(devices)) => Progress::Finish(Ok(devices@)),
        Progress::Finish(Err(error)) => Progress::Finish(Err(error)),
    }
}

impl GetBondedModel {
    pub open spec fn of_enabled(
        progress: Progress<IsEnabled, Result<bool, BluetoothError>>,
    ) -> Progress<Self, Result<Seq<BluetoothDevice>, BluetoothError>> {
        match progress {
            Progress::Call(op, command) => Progress::Call(GetBondedModel::Checking(op), command),
            Progress::Finish(Ok(true)) => Self::of_find(finding_adapter()),
            Progress::Finish(Ok(false)) => Progress::Finish(Ok(Seq::empty())),
            Progress::Finish(Err(error)) => Progress::Finish(Err(error)),
        }
    }

    pub open spec fn of_find(
        progress: Progress<FindAdapter, Result<ObjectId, BluetoothError>>,
    ) -> Progress<Self, Result<Seq<BluetoothDevice>, BluetoothError>> {
        match progress {
            Progress::Call(op, command) => Progress::Call(GetBondedModel::Finding(op), command),
            Progress::Finish(Ok(adapter)) => Progress::Call(
                GetBondedModel::Attaching { adapter },
                Command::AttachVm,
            ),
            Progress::Finish(Err(error)) => Progress::Finish(Err(error)),
        }
    }

    pub open spec fn of_jerr(progress: Progress<Jerr, BluetoothError>) -> Progress<
        Self,
        Result<Seq<BluetoothDevice>, BluetoothError>,
    > {
        match progress {
            Progress::Call(op, command) => Progress::Call(GetBondedModel::Explaining(op), command),
            Progress::Finish(error) => Progress::Finish(Err(error)),
        }
    }

    /// The element at the index is next, if the array is that long.
    pub open spec fn collected(
        array: ObjectId,
        index: int,
        len: i32,
        devices: Seq<BluetoothDevice>,
    ) -> Progress<Self, Result<Seq<BluetoothDevice>, BluetoothError>> {
        if index < len {
            Progress::Call(
                GetBondedModel::Collecting { array, index: index as i32, len, devices },
                Command::ArrayElement { array, index: index as i32 },
            )
        } else {
            Progress::Finish(Ok(devices))
        }
    }
}

impl Protocol for GetBondedModel {
    type Outcome = Result<Seq<BluetoothDevice>, BluetoothError>;

    open spec fn wanted(self) -> Want {
        match self {
            GetBondedModel::Checking(op) => op.wanted(),
            GetBondedModel::Finding(op) => op.wanted(),
            GetBondedModel::Attaching { .. } => Want::Attempt,
            GetBondedModel::Listing => Want::Object,
            GetBondedModel::Arraying => Want::Object,
            GetBondedModel::Measuring { .. } => Want::Length,
            GetBondedModel::Collecting { .. } => Want::Object,
            GetBondedModel::Explaining(op) => op.wanted(),
        }
    }

    open spec fn next(self, reply: Reply) -> Progress<Self, Self::Outcome> {
        match (self, reply) {
            (GetBondedModel::Checking(op), _) => Self::of_enabled(op.next(reply)),
            (GetBondedModel::Finding(op), _) => Self::of_find(op.next(reply)),
            (GetBondedModel::Attaching { adapter }, Reply::Done) => Progress::Call(
                GetBondedModel::Listing,
                Command::CallObject {
                    target: Target::Object(adapter),
                    method: JavaMethod::GetBondedDevices,
                    argument: None,
                },
            ),
            (GetBondedModel::Listing, Reply::Object(set)) => if set.is_null() {
                Progress::Finish(Err(BluetoothError::PermissionDenied))
            } else {
                Progress::Call(
                    GetBondedModel::Arraying,
                    Command::CallObject {
                        target: Target::Object(set),
                        method: JavaMethod::ToArray,
                        argument: None,
                    },
                )
            },
            (GetBondedModel::Arraying, Reply::Object(array)) => Progress::Call(
                GetBondedModel::Measuring { array },
                Command::ArrayLength(array),
            ),
            (GetBondedModel::Measuring { array }, Reply::Int(len)) => Self::collected(
                array,
                0,
                len,
                Seq::empty(),
            ),
            (
                GetBondedModel::Collecting { array, index, len, devices },
                Reply::Object(internal),
            ) => Self::collected(array, index + 1, len, devices.push(BluetoothDevice { internal })),
            (GetBondedModel::Explaining(op), _) => Self::of_jerr(op.next(reply)),
            (_, Reply::Failed(failure)) => Self::of_jerr(error::explaining(failure)),
            _ => arbitrary(),
        }
    }
}

impl GetBondedDevices {
    fn from_enabled(progress: Progress<IsEnabled, Result<bool, BluetoothError>>) -> (bonded:
        Progress<Self, Result<Vec<BluetoothDevice>, BluetoothError>>)
        ensures
            bonded_view(bonded) == GetBondedModel::of_enabled(progress),
    {
        match progress {
            Progress::Call(op, command) => Progress::Call(GetBondedDevices::Checking(op), command),
            Progress::Finish(Ok(true)) => Self::from_find(bluetooth_adapter()),
            Progress::Finish(Ok(false)) => Progress::Finish(Ok(Vec::new())),
            Progress::Finish(Err(error)) => Progress::Finish(Err(error)),
        }
    }

    fn from_find(progress: Progress<FindAdapter, Result<ObjectId, BluetoothError>>) -> (bonded:
        Progress<Self, Result<Vec<BluetoothDevice>, BluetoothError>>)
        ensures
            bonded_view(bonded) == GetBondedModel::of_find(progress),
    {
        match progress {
            Progress::Call(op, command) => Progress::Call(GetBondedDevices::Finding(op), command),
            Progress::Finish(Ok(adapter)) => Progress::Call(
                GetBondedDevices::Attaching { adapter },
                Command::AttachVm,
            ),
            Progress::Finish(Err(error)) => Progress::Finish(Err(error)),
        }
    }

    fn from_jerr(progress: Progress<Jerr, BluetoothError>) -> (bonded: Progress<
        Self,
        Result<Vec<BluetoothDevice>, BluetoothError>,
    >)
        ensures
            bonded_view(bonded) == GetBondedModel::of_jerr(progress),
    {
        match progress {
            Progress::Call(op, command) => Progress::Call(
                GetBondedDevices::Explaining(op),
                command,
            ),
            Progress::Finish(error) => Progress::Finish(Err(error)),
        }
    }

    /// The replies that the operation can take.
    pub fn want(&self) -> (want: Want)
        ensures
            want == self@.wanted(),
    {
        match self {
            GetBondedDevices::Checking(op) => op.want(),
            GetBondedDevices::Finding(op) => op.want(),
            GetBondedDevices::Attaching { .. } => Want::Attempt,
            GetBondedDevices::Listing => Want::Object,
            GetBondedDevices::Arraying => Want::Object,
            GetBondedDevices::Measuring { .. } => Want::Length,
            GetBondedDevices::Collecting { .. } => Want::Object,
            GetBondedDevices::Explaining(op) => op.want(),
        }
    }

    /// Takes the reply to the command that was handed out last.
    pub fn step(self, reply: Reply) -> (progress: Progress<
        Self,
        Result<Vec<BluetoothDevice>, BluetoothError>,
    >)
        requires
            self@.wanted().admits(reply),
        ensures
            bonded_view(progress) == self@.next(reply),
    {
        match (self, reply) {
            (GetBondedDevices::Checking(op), reply) => Self::from_enabled(op.step(reply)),
            (GetBondedDevices::Finding(op), reply) => Self::from_find(op.step(reply)),
            (GetBondedDevices::Attaching { adapter }, Reply::Done) => Progress::Call(
                GetBondedDevices::Listing,
                Command::CallObject {
                    target: Target::Object(adapter),
                    method: JavaMethod::GetBondedDevices,
                    argument: None,
                },
            ),
            (GetBondedDevices::Listing, Reply::Object(set)) => if set.is_null() {
                Progress::Finish(Err(BluetoothError::PermissionDenied))
            } else {
                Progress::Call(
                    GetBondedDevices::Arraying,
                    Command::CallObject {
                        target: Target::Object(set),
                        method: JavaMethod::ToArray,
                        argument: None,
                    },
                )
            },
            (GetBondedDevices::Arraying, Reply::Object(array)) => Progress::Call(
                GetBondedDevices::Measuring { array },
                Command::ArrayLength(array),
            ),
            (GetBondedDevices::Measuring { array }, Reply::Int(len)) => {
                let devices: Vec<BluetoothDevice> = Vec::new();
                if 0 < len {
                    Progress::Call(
                        GetBondedDevices::Collecting { array, index: 0, len, devices },
                        Command::ArrayElement { array, index: 0 },
                    )
                } else {
                    Progress::Finish(Ok(devices))
                }
            },
            (
                GetBondedDevices::Collecting { array, index, len, devices },
                Reply::Object(internal),
            ) => {
                let mut devices = devices;
                devices.push(BluetoothDevice { internal });
                if index < len && index + 1 < len {
                    let index: i32 = index + 1;
                    Progress::Call(
                        GetBondedDevices::Collecting { array, index, len, devices },
                        Command::ArrayElement { array, index },
                    )
                } else {
                    Progress::Finish(Ok(devices))
                }
            },
            (GetBondedDevices::Explaining(op), reply) => Self::from_jerr(op.step(reply)),
            (_, Reply::Failed(failure)) => Self::from_jerr(jerr(failure)),
            _ => vstd::pervasive::unreached(),
        }
    }
}

/// The conversation of [`get_bonded_devices`] at its start.
pub open spec fn getting_bonded() -> Progress<
    GetBondedModel,
    Result<Seq<BluetoothDevice>, BluetoothError>,
> {
    GetBondedModel::of_enabled(asking_enabled())
}

/// Gets a list of `BluetoothDevice` objects that are bonded (paired) to the adapter.
/// The list is empty if Bluetooth is not enabled.
pub fn get_bonded_devices() -> (progress: Progress<
    GetBondedDevices,
    Result<Vec<BluetoothDevice>, BluetoothError>,
>)
    ensures
        bonded_view(progress) == getting_bonded(),
{
    GetBondedDevices::from_enabled(is_enabled())
}

/// The adapter is got exactly when every command succeeds and neither the service nor the adapter
/// is null. Each of these being null has an error of its own, which nothing else leads to. Any
/// other error is what is found out about the failure of a command.
pub proof fn law_get_adapter_outcome(replies: Seq<Reply>)
    requires
        operation::admitted(getting_adapter(), replies),
        operation::run(getting_adapter(), replies) is Finish,
    ensures
        ({
            let outcome = operation::run(getting_adapter(), replies)->Finish_0;
            let named = replies.len() >= 3 && replies[0] is Done && replies[1] is Object
                && replies[2] is Object;
            let served = named && replies.len() >= 4 && !replies[2]->Object_0.is_null()
                && replies[3] is Object;
            &&& outcome is Ok <==> served && !replies[3]->Object_0.is_null() && replies.len() == 5
                && replies[4] is Object
            &&& outcome is Ok ==> outcome->Ok_0 == replies[4]->Object_0
            &&& (outcome matches Err(error) && error is NoBluetoothService) <==> named
                && replies[2]->Object_0.is_null()
            &&& (outcome matches Err(error) && error is NoAdapter) <==> served
                && replies[3]->Object_0.is_null()
            &&& outcome matches Err(error) ==> error is NoBluetoothService || error is NoAdapter
                || error is Exception || error is Jni
        }),
{
    reveal_with_fuel(operation::run, 7);
    reveal_with_fuel(operation::admitted, 7);
    let after_0 = replies;
    let after_1 = after_0.drop_first();
    let after_2 = after_1.drop_first();
    let after_3 = after_2.drop_first();
    let after_4 = after_3.drop_first();
    operation::lemma_failed_command(GetAdapterStage::Attaching, after_0);
    operation::lemma_failed_command(GetAdapterStage::Naming, after_1);
    operation::lemma_failed_command(GetAdapterStage::Serving, after_2);
    operation::lemma_failed_command(GetAdapterStage::Getting, after_3);
    operation::lemma_failed_command(GetAdapterStage::Keeping, after_4);
}

/// The adapter that is remembered is the one that is found, and nothing else is done.
pub proof fn law_remembered_adapter(adapter: ObjectId)
    ensures
        operation::ends_with(finding_adapter(), seq![Reply::Found(Some(adapter))], Ok(adapter)),
        operation::commands(finding_adapter(), seq![Reply::Found(Some(adapter))]) == seq![
            Command::CachedAdapter,
        ],
{
    reveal_with_fuel(operation::run, 3);
    reveal_with_fuel(operation::admitted, 3);
    reveal_with_fuel(operation::commands, 3);
}

/// If no adapter is remembered, a new one is got and handed over to be remembered. The one that is
/// remembered from then on is the one that is found. Where none can be got, the error says why.
pub proof fn law_new_adapter(
    got: Seq<Reply>,
    outcome: Result<ObjectId, BluetoothError>,
    remembered: ObjectId,
)
    requires
        operation::ends_with(getting_adapter(), got, outcome),
    ensures
        match outcome {
            Ok(adapter) => {
                let replies = seq![Reply::Found(None)] + got;
                &&& operation::run(finding_adapter(), replies) matches Progress::Call(_, command)
                &&& command == Command::CacheAdapter(adapter)
                &&& operation::ends_with(
                    finding_adapter(),
                    replies + seq![Reply::Object(remembered)],
                    Ok(remembered),
                )
            },
            Err(error) => operation::ends_with(
                finding_adapter(),
                seq![Reply::Found(None)] + got,
                Err(error),
            ),
        },
{
    let hold = |progress: Progress<GetAdapter, Result<ObjectId, BluetoothError>>|
        Explained::of(FindAdapterStage::of_get(progress));
    let first = seq![Reply::Found(None)];
    let last = seq![Reply::Object(remembered)];
    reveal_with_fuel(operation::run, 2);
    reveal_with_fuel(operation::admitted, 2);
    assert(operation::run(finding_adapter(), first) == hold(getting_adapter()));
    operation::lemma_run_in_two(finding_adapter(), first, got);
    operation::lemma_held_end(hold, getting_adapter(), got, outcome);
    operation::lemma_run_in_two(finding_adapter(), first + got, last);
}

/// What the process remembers of the adapter after a command was carried out. A command to
/// remember one makes no difference if one is remembered already.
pub open spec fn remembered_after(
    remembered: Option<ObjectId>,
    command: Command,
) -> Option<ObjectId> {
    match (remembered, command) {
        (None, Command::CacheAdapter(adapter)) => Some(adapter),
        _ => remembered,
    }
}

/// Whether the reply is true to what the process remembers of the adapter.
pub open spec fn true_to_memory(
    remembered: Option<ObjectId>,
    command: Command,
    reply: Reply,
) -> bool {
    match command {
        Command::CachedAdapter => reply == Reply::Found(remembered),
        Command::CacheAdapter(_) => remembered_after(remembered, command) matches Some(adapter)
            && reply == Reply::Object(adapter),
        _ => true,
    }
}

/// Calls of [`bluetooth_adapter`] in one process, each as far as it has come, and what the process
/// remembers of the adapter.
pub struct AdapterCalls {
    pub calls: Seq<Progress<FindAdapter, Result<ObjectId, BluetoothError>>>,
    pub remembered: Option<ObjectId>,
}

impl AdapterCalls {
    /// All calls are at their start, and no adapter is remembered.
    pub open spec fn start(count: nat) -> AdapterCalls {
        AdapterCalls { calls: Seq::new(count, |i: int| finding_adapter()), remembered: None }
    }

    /// The adapter that a call has ended with, if it has succeeded.
    pub open spec fn found(self, call: int) -> Option<ObjectId> {
        match self.calls[call] {
            Progress::Finish(Ok(adapter)) => Some(adapter),
            _ => None,
        }
    }

    /// Whether any call has succeeded.
    pub open spec fn any_found(self) -> bool {
        exists|i: int| 0 <= i < self.calls.len() && #[trigger] self.found(i) is Some
    }

    /// Whether this call can take this reply next.
    pub open spec fn possible(self, call: int, reply: Reply) -> bool {
        &&& 0 <= call < self.calls.len()
        &&& self.calls[call] matches Progress::Call(op, command)
        &&& op.wanted().admits(reply)
        &&& true_to_memory(self.remembered, command, reply)
    }

    /// The calls after one of them has taken a reply.
    pub open spec fn after(self, call: int, reply: Reply) -> AdapterCalls {
        match self.calls[call] {
            Progress::Call(op, command) => AdapterCalls {
                calls: self.calls.update(call, op.next(reply)),
                remembered: remembered_after(self.remembered, command),
            },
            Progress::Finish(_) => self,
        }
    }

    /// Whether the calls can take the replies in this order, each reply by the call that is named
    /// with it.
    pub open spec fn all_possible(self, events: Seq<(int, Reply)>) -> bool
        decreases events.len(),
    {
        events.len() > 0 ==> {
            &&& self.all_possible(events.drop_last())
            &&& self.after_all(events.drop_last()).possible(events.last().0, events.last().1)
        }
    }

    /// The calls after they have taken the replies.
    pub open spec fn after_all(self, events: Seq<(int, Reply)>) -> AdapterCalls
        decreases events.len(),
    {
        if events.len() == 0 {
            self
        } else {
            self.after_all(events.drop_last()).after(events.last().0, events.last().1)
        }
    }

    /// What holds whenever calls share a memory.
    spec fn consistent(self) -> bool {
        &&& forall|i: int|
            0 <= i < self.calls.len() ==> match #[trigger] self.calls[i] {
                Progress::Call(Explained::Running(FindAdapterStage::Looking), command) => command
                    is CachedAdapter,
                Progress::Call(Explained::Running(FindAdapterStage::Caching), command) => command
                    is CacheAdapter,
                Progress::Call(_, command) => command !is CachedAdapter && command
                    !is CacheAdapter,
                Progress::Finish(Ok(adapter)) => self.remembered == Some(adapter),
                Progress::Finish(Err(_)) => true,
            }
        &&& self.remembered is Some ==> self.any_found()
    }
}

proof fn lemma_adapter_calls_step(before: AdapterCalls, call: int, reply: Reply)
    requires
        before.consistent(),
        before.possible(call, reply),
    ensures
        before.after(call, reply).consistent(),
        before.remembered is Some ==> before.after(call, reply).remembered == before.remembered,
        before.after(call, reply).calls.len() == before.calls.len(),
{
    let after = before.after(call, reply);
    let op = before.calls[call]->Call_0;
    let command = before.calls[call]->Call_1;
    assert(after.calls[call] == op.next(reply));
    if command is CacheAdapter {
        assert(after.found(call) is Some);
    } else if after.remembered is Some {
        let i = choose|i: int| 0 <= i < before.calls.len() && #[trigger] before.found(i) is Some;
        assert(after.found(i) == before.found(i));
    }
}

proof fn lemma_adapter_calls(count: nat, events: Seq<(int, Reply)>)
    requires
        AdapterCalls::start(count).all_possible(events),
    ensures
        AdapterCalls::start(count).after_all(events).consistent(),
        AdapterCalls::start(count).after_all(events).calls.len() == count,
    decreases events.len(),
{
    if events.len() > 0 {
        lemma_adapter_calls(count, events.drop_last());
        lemma_adapter_calls_step(
            AdapterCalls::start(count).after_all(events.drop_last()),
            events.last().0,
            events.last().1,
        );
    }
}

/// The adapter is created once. Whatever calls there are in a process, from any threads and however
/// their steps alternate, all that succeed find the same adapter, and it is the one that the
/// process remembers. Nothing is remembered unless a call has succeeded: an error is not.
pub proof fn law_adapter_created_once(count: nat, events: Seq<(int, Reply)>)
    requires
        AdapterCalls::start(count).all_possible(events),
    ensures
        ({
            let end = AdapterCalls::start(count).after_all(events);
            &&& end.calls.len() == count
            &&& forall|i: int|
                0 <= i < count && #[trigger] end.found(i) is Some ==> end.found(i)
                    == end.remembered
            &&& end.any_found() <==> end.remembered is Some
        }),
{
    lemma_adapter_calls(count, events);
}

/// What a call does depends on what is remembered when it takes its first reply. Once a call has
/// succeeded, the next one that starts ends at once with the same adapter, and nothing is looked
/// up. Before that, also after any number of errors, it looks the adapter up anew.
pub proof fn law_adapter_looked_up_until_found(
    count: nat,
    events: Seq<(int, Reply)>,
    call: int,
    reply: Reply,
)
    requires
        AdapterCalls::start(count).all_possible(events.push((call, reply))),
        AdapterCalls::start(count).after_all(events).calls[call] == finding_adapter(),
    ensures
        ({
            let before = AdapterCalls::start(count).after_all(events);
            let after = AdapterCalls::start(count).after_all(events.push((call, reply)));
            &&& after.remembered == before.remembered
            &&& if before.any_found() {
                after.found(call) is Some && after.found(call) == before.remembered
            } else {
                after.calls[call] == Explained::of(FindAdapterStage::of_get(getting_adapter()))
            }
        }),
{
    assert(events.push((call, reply)).drop_last() =~= events);
    lemma_adapter_calls(count, events);
}

/// The remembered adapter stays the same from the time at which one is remembered.
pub proof fn law_adapter_stays(count: nat, events: Seq<(int, Reply)>, more: Seq<(int, Reply)>)
    requires
        AdapterCalls::start(count).all_possible(events + more),
        AdapterCalls::start(count).after_all(events).remembered is Some,
    ensures
        AdapterCalls::start(count).after_all(events + more).remembered == AdapterCalls::start(
            count,
        ).after_all(events).remembered,
    decreases more.len(),
{
    if more.len() == 0 {
        assert(events + more =~= events);
    } else {
        assert((events + more).drop_last() =~= events + more.drop_last());
        law_adapter_stays(count, events, more.drop_last());
        lemma_adapter_calls(count, events + more.drop_last());
        lemma_adapter_calls_step(
            AdapterCalls::start(count).after_all(events + more.drop_last()),
            more.last().0,
            more.last().1,
        );
    }
}

/// Bluetooth is reported as enabled or not exactly as the adapter that was found says. Where there
/// is no adapter, the error says why.
pub proof fn law_is_enabled_outcome(
    found: Seq<Reply>,
    outcome: Result<ObjectId, BluetoothError>,
    asked: Seq<Reply>,
    answer: Result<bool, BluetoothError>,
)
    requires
        operation::ends_with(finding_adapter(), found, outcome),
        outcome matches Ok(adapter) ==> operation::ends_with(
            QueryStage::asked(Target::Object(adapter), JavaMethod::IsEnabled),
            asked,
            answer,
        ),
    ensures
        match outcome {
            Ok(_) => operation::ends_with(asking_enabled(), found + asked, answer),
            Err(error) => operation::ends_with(asking_enabled(), found, Err(error)),
        },
{
    let hold = |progress: Progress<FindAdapter, Result<ObjectId, BluetoothError>>|
        Explained::of(IsEnabledStage::of_find(progress));
    operation::lemma_held_end(hold, finding_adapter(), found, outcome);
    if let Ok(adapter) = outcome {
        let hold_query = |progress: Progress<Query, Result<bool, BluetoothError>>|
            Explained::of(IsEnabledStage::of_query(progress));
        let query = QueryStage::asked(Target::Object(adapter), JavaMethod::IsEnabled);
        operation::lemma_run_in_two(asking_enabled(), found, asked);
        operation::lemma_held_end(hold_query, query, asked, answer);
    }
}

/// The list is empty if Bluetooth is not enabled. Whether it is comes first.
pub proof fn law_bonded_devices_not_enabled(
    asked: Seq<Reply>,
    enabled: Result<bool, BluetoothError>,
)
    requires
        operation::ends_with(asking_enabled(), asked, enabled),
    ensures
        match enabled {
            Ok(true) => {
                &&& operation::run(getting_bonded(), asked) == GetBondedModel::of_find(
                    finding_adapter(),
                )
                &&& operation::admitted(getting_bonded(), asked)
            },
            Ok(false) => operation::ends_with(getting_bonded(), asked, Ok(Seq::empty())),
            Err(error) => operation::ends_with(getting_bonded(), asked, Err(error)),
        },
{
    let hold = |progress: Progress<IsEnabled, Result<bool, BluetoothError>>|
        GetBondedModel::of_enabled(progress);
    operation::lemma_held_end(hold, asking_enabled(), asked, enabled);
}

/// Replies that bring these objects.
pub open spec fn bringing(objects: Seq<ObjectId>) -> Seq<Reply> {
    objects.map_values(|object: ObjectId| Reply::Object(object))
}

/// The devices that these objects stand for.
pub open spec fn devices_of(objects: Seq<ObjectId>) -> Seq<BluetoothDevice> {
    objects.map_values(|internal: ObjectId| BluetoothDevice { internal })
}

proof fn lemma_collect(
    array: ObjectId,
    index: int,
    len: i32,
    devices: Seq<BluetoothDevice>,
    objects: Seq<ObjectId>,
)
    requires
        0 <= index,
        index + objects.len() == len,
    ensures
        operation::ends_with(
            GetBondedModel::collected(array, index, len, devices),
            bringing(objects),
            Ok(devices + devices_of(objects)),
        ),
    decreases objects.len(),
{
    if objects.len() == 0 {
        assert(devices + devices_of(objects) =~= devices);
    } else {
        let device = BluetoothDevice { internal: objects.first() };
        lemma_collect(array, index + 1, len, devices.push(device), objects.drop_first());
        assert(bringing(objects).drop_first() =~= bringing(objects.drop_first()));
        assert(devices.push(device) + devices_of(objects.drop_first()) =~= devices + devices_of(
            objects,
        ));
    }
}

proof fn lemma_bonded_attaches(
    asked: Seq<Reply>,
    found: Seq<Reply>,
    outcome: Result<ObjectId, BluetoothError>,
)
    requires
        operation::ends_with(asking_enabled(), asked, Ok(true)),
        operation::ends_with(finding_adapter(), found, outcome),
    ensures
        operation::run(getting_bonded(), asked + found) == GetBondedModel::of_find(
            Progress::Finish(outcome),
        ),
        operation::admitted(getting_bonded(), asked + found),
{
    let hold = |progress: Progress<FindAdapter, Result<ObjectId, BluetoothError>>|
        GetBondedModel::of_find(progress);
    law_bonded_devices_not_enabled(asked, Ok(true));
    operation::lemma_run_in_two(getting_bonded(), asked, found);
    operation::lemma_held_end(hold, finding_adapter(), found, outcome);
}

proof fn lemma_bonded_lists(adapter: ObjectId, set: ObjectId, array: ObjectId, len: i32)
    requires
        0 <= len,
    ensures
        ({
            let attaching = GetBondedModel::of_find(Progress::Finish(Ok(adapter)));
            let listed = seq![
                Reply::Done,
                Reply::Object(set),
                Reply::Object(array),
                Reply::Int(len),
            ];
            if set.is_null() {
                operation::ends_with(
                    attaching,
                    seq![Reply::Done, Reply::Object(set)],
                    Err(BluetoothError::PermissionDenied),
                )
            } else {
                &&& operation::run(attaching, listed) == GetBondedModel::collected(
                    array,
                    0,
                    len,
                    Seq::empty(),
                )
                &&& operation::admitted(attaching, listed)
            }
        }),
{
    reveal_with_fuel(operation::run, 6);
    reveal_with_fuel(operation::admitted, 6);
}

/// If Bluetooth is enabled, the list holds the elements of the array of bonded devices, all of
/// them and in their order. Permission is denied if there is no set of devices.
pub proof fn law_bonded_devices_list(
    asked: Seq<Reply>,
    found: Seq<Reply>,
    outcome: Result<ObjectId, BluetoothError>,
    set: ObjectId,
    array: ObjectId,
    objects: Seq<ObjectId>,
)
    requires
        operation::ends_with(asking_enabled(), asked, Ok(true)),
        operation::ends_with(finding_adapter(), found, outcome),
        objects.len() <= i32::MAX,
    ensures
        match outcome {
            Ok(_) => if set.is_null() {
                operation::ends_with(
                    getting_bonded(),
                    asked + found + seq![Reply::Done, Reply::Object(set)],
                    Err(BluetoothError::PermissionDenied),
                )
            } else {
                operation::ends_with(
                    getting_bonded(),
                    asked + found + seq![
                        Reply::Done,
                        Reply::Object(set),
                        Reply::Object(array),
                        Reply::Int(objects.len() as i32),
                    ] + bringing(objects),
                    Ok(devices_of(objects)),
                )
            },
            Err(error) => operation::ends_with(getting_bonded(), asked + found, Err(error)),
        },
{
    let start = getting_bonded();
    lemma_bonded_attaches(asked, found, outcome);
    if let Ok(adapter) = outcome {
        let len = objects.len() as i32;
        let denied = seq![Reply::Done, Reply::Object(set)];
        let listed = seq![
            Reply::Done,
            Reply::Object(set),
            Reply::Object(array),
            Reply::Int(len),
        ];
        lemma_bonded_lists(adapter, set, array, len);
        if set.is_null() {
            operation::lemma_run_in_two(start, asked + found, denied);
        } else {
            operation::lemma_run_in_two(start, asked + found, listed);
            operation::lemma_run_in_two(start, asked + found + listed, bringing(objects));
            lemma_collect(array, 0, len, Seq::empty(), objects);
            assert(Seq::<BluetoothDevice>::empty() + devices_of(objects) =~= devices_of(objects));
        }
    }
}

/// When a command fails after Bluetooth was found enabled, there is no list, and the error is what
/// is found out about the failure. This holds for every element of the array as well.
pub proof fn law_bonded_devices_broken_off(
    bonded: GetBondedModel,
    failure: JniError,
    explained: Seq<Reply>,
    error: BluetoothError,
)
    requires
        bonded is Attaching || bonded is Listing || bonded is Arraying || bonded is Measuring
            || bonded is Collecting,
        operation::ends_with(error::explaining(failure), explained, error),
    ensures
        operation::ends_with(bonded.next(Reply::Failed(failure)), explained, Err(error)),
{
    let hold = |progress: Progress<Jerr, BluetoothError>| GetBondedModel::of_jerr(progress);
    operation::lemma_held_end(hold, error::explaining(failure), explained, error);
}

/// How the adapter is got: the context is asked for the Bluetooth service by its name, the service
/// for its adapter, and the adapter is kept. If the service or the adapter is null, nothing more is
/// asked. A failure of any of the commands is explained.
pub proof fn law_get_adapter_conversation(
    name: ObjectId,
    manager: ObjectId,
    object: ObjectId,
    adapter: ObjectId,
)
    ensures
        ({
            let start = getting_adapter();
            let replies = seq![
                Reply::Done,
                Reply::Object(name),
                Reply::Object(manager),
                Reply::Object(object),
                Reply::Object(adapter),
            ];
            let asked = seq![
                Command::AttachVm,
                Command::NewString(JavaText::BluetoothService),
                Command::CallObject {
                    target: Target::Context,
                    method: JavaMethod::GetSystemService,
                    argument: Some(name),
                },
                Command::CallObject {
                    target: Target::Object(manager),
                    method: JavaMethod::GetAdapter,
                    argument: None,
                },
                Command::NewGlobalRef { object, checked: false },
            ];
            let last = if manager == ObjectId(0) {
                3
            } else if object == ObjectId(0) {
                4
            } else {
                5int
            };
            &&& operation::leads_to(
                start,
                replies.take(last),
                asked.take(last),
                Progress::Finish(
                    if manager == ObjectId(0) {
                        Err(BluetoothError::NoBluetoothService)
                    } else if object == ObjectId(0) {
                        Err(BluetoothError::NoAdapter)
                    } else {
                        Ok(adapter)
                    },
                ),
            )
            &&& forall|k: int|
                0 <= k < last ==> operation::explains_failure_at(
                    start,
                    #[trigger] replies.take(k),
                    operation::just_the_error::<ObjectId>(),
                )
        }),
{
    let start = getting_adapter();
    let replies = seq![
        Reply::Done,
        Reply::Object(name),
        Reply::Object(manager),
        Reply::Object(object),
        Reply::Object(adapter),
    ];
    let asked = seq![
        Command::AttachVm,
        Command::NewString(JavaText::BluetoothService),
        Command::CallObject {
            target: Target::Context,
            method: JavaMethod::GetSystemService,
            argument: Some(name),
        },
        Command::CallObject {
            target: Target::Object(manager),
            method: JavaMethod::GetAdapter,
            argument: None,
        },
        Command::NewGlobalRef { object, checked: false },
    ];
    operation::lemma_stage_walk(start, replies, asked, 0, GetAdapterStage::Attaching);
    operation::lemma_stage_walk(start, replies, asked, 1, GetAdapterStage::Naming);
    operation::lemma_stage_walk(start, replies, asked, 2, GetAdapterStage::Serving);
    if manager != ObjectId(0) {
        operation::lemma_stage_walk(start, replies, asked, 3, GetAdapterStage::Getting);
        if object != ObjectId(0) {
            operation::lemma_stage_walk(start, replies, asked, 4, GetAdapterStage::Keeping);
        }
    }
}

/// How the adapter is found: what is remembered is asked for first. If nothing is, the adapter is
/// got with the commands of [`get_bluetooth_adapter`] and no others, and the one that was got is
/// handed over to be remembered. The one that is remembered then is the outcome.
pub proof fn law_find_adapter_conversation(
    got: Seq<Reply>,
    outcome: Result<ObjectId, BluetoothError>,
    remembered: ObjectId,
)
    requires
        operation::ends_with(getting_adapter(), got, outcome),
    ensures
        operation::leads_to(
            finding_adapter(),
            seq![Reply::Found(Some(remembered))],
            seq![Command::CachedAdapter],
            Progress::Finish(Ok(remembered)),
        ),
        match outcome {
            Ok(adapter) => operation::leads_to(
                finding_adapter(),
                seq![Reply::Found(None)] + got + seq![Reply::Object(remembered)],
                seq![Command::CachedAdapter] + operation::answered(getting_adapter(), got) + seq![
                    Command::CacheAdapter(adapter),
                ],
                Progress::Finish(Ok(remembered)),
            ),
            Err(error) => operation::leads_to(
                finding_adapter(),
                seq![Reply::Found(None)] + got,
                seq![Command::CachedAdapter] + operation::answered(getting_adapter(), got),
                Progress::Finish(Err(error)),
            ),
        },
{
    let start = finding_adapter();
    let looking = Explained::Running(FindAdapterStage::Looking);
    let cached = seq![Command::CachedAdapter];
    let hold = |progress: Progress<GetAdapter, Result<ObjectId, BluetoothError>>|
        Explained::of(FindAdapterStage::of_get(progress));
    operation::lemma_walk(start, seq![Reply::Found(Some(remembered))], cached, 0, looking);
    operation::lemma_walk(start, seq![Reply::Found(None)], cached, 0, looking);
    operation::lemma_held_leads(hold, getting_adapter(), got, outcome);
    operation::lemma_leads_further(
        start,
        seq![Reply::Found(None)],
        cached,
        hold(getting_adapter()),
        got,
        operation::answered(getting_adapter(), got),
        hold(Progress::Finish(outcome)),
    );
    if let Ok(adapter) = outcome {
        let caching = hold(Progress::Finish(outcome));
        let last = seq![Reply::Object(remembered)];
        let cache = seq![Command::CacheAdapter(adapter)];
        operation::lemma_walk(
            caching,
            last,
            cache,
            0,
            Explained::Running(FindAdapterStage::Caching),
        );
        operation::lemma_leads_further(
            start,
            seq![Reply::Found(None)] + got,
            cached + operation::answered(getting_adapter(), got),
            caching,
            last,
            cache,
            Progress::Finish(Ok(remembered)),
        );
    }
}

/// How it is found out whether Bluetooth is enabled: the adapter is found, with the commands of
/// [`bluetooth_adapter`] and no others, and `isEnabled` is called on it.
pub proof fn law_is_enabled_conversation(
    found: Seq<Reply>,
    outcome: Result<ObjectId, BluetoothError>,
    enabled: bool,
)
    requires
        operation::ends_with(finding_adapter(), found, outcome),
    ensures
        match outcome {
            Ok(adapter) => {
                let replies = seq![Reply::Done, Reply::Bool(enabled)];
                &&& operation::leads_to(
                    asking_enabled(),
                    found + replies,
                    operation::answered(finding_adapter(), found) + seq![
                        Command::AttachVm,
                        Command::CallBoolean {
                            target: Target::Object(adapter),
                            method: JavaMethod::IsEnabled,
                            remember: true,
                        },
                    ],
                    Progress::Finish(Ok(enabled)),
                )
                &&& forall|k: int|
                    0 <= k < 2 ==> operation::explains_failure_at(
                        asking_enabled(),
                        found + #[trigger] replies.take(k),
                        operation::just_the_error::<bool>(),
                    )
            },
            Err(error) => operation::leads_to(
                asking_enabled(),
                found,
                operation::answered(finding_adapter(), found),
                Progress::Finish(Err(error)),
            ),
        },
{
    let start = asking_enabled();
    let hold = |progress: Progress<FindAdapter, Result<ObjectId, BluetoothError>>|
        Explained::of(IsEnabledStage::of_find(progress));
    let first = operation::answered(finding_adapter(), found);
    operation::lemma_held_leads(hold, finding_adapter(), found, outcome);
    if let Ok(adapter) = outcome {
        let middle = hold(Progress::Finish(outcome));
        let replies = seq![Reply::Done, Reply::Bool(enabled)];
        let asked = seq![
            Command::AttachVm,
            Command::CallBoolean {
                target: Target::Object(adapter),
                method: JavaMethod::IsEnabled,
                remember: true,
            },
        ];
        let attaching = QueryStage::Attaching {
            target: Target::Object(adapter),
            method: JavaMethod::IsEnabled,
        };
        lemma_enabled_walk(start, found, first, middle, replies, asked, 0, attaching);
        lemma_enabled_walk(start, found, first, middle, replies, asked, 1, QueryStage::Asking);
    }
}

proof fn lemma_enabled_walk(
    start: Progress<IsEnabled, Result<bool, BluetoothError>>,
    found: Seq<Reply>,
    first: Seq<Command>,
    middle: Progress<IsEnabled, Result<bool, BluetoothError>>,
    replies: Seq<Reply>,
    asked: Seq<Command>,
    k: int,
    stage: QueryStage,
)
    requires
        0 <= k < replies.len(),
        replies.len() == asked.len(),
        operation::leads_to(start, found, first, middle),
        ({
            let op = Explained::Running(IsEnabledStage::Asking(Explained::Running(stage)));
            &&& k == 0 ==> middle == Progress::<IsEnabled, Result<bool, BluetoothError>>::Call(
                op,
                asked[0],
            )
            &&& k > 0 ==> operation::leads_to(
                middle,
                replies.take(k),
                asked.take(k),
                Progress::Call(op, asked[k]),
            )
        }),
        stage.stage_wanted().admits(replies[k]),
        stage.stage_wanted() == Want::Attempt || stage.stage_wanted() == Want::Bool,
    ensures
        operation::explains_failure_at(
            start,
            found + replies.take(k),
            operation::just_the_error::<bool>(),
        ),
        ({
            let next = Explained::of(
                IsEnabledStage::of_query(Explained::Running(stage).next(replies[k])),
            );
            &&& operation::leads_to(middle, replies.take(k + 1), asked.take(k + 1), next)
            &&& k + 1 == replies.len() ==> operation::leads_to(
                start,
                found + replies,
                first + asked,
                next,
            )
        }),
{
    let op = Explained::Running(IsEnabledStage::Asking(Explained::Running(stage)));
    let hold = |progress: Progress<Jerr, BluetoothError>|
        Explained::<IsEnabledStage>::of(
            IsEnabledStage::of_query(Explained::<QueryStage>::of_jerr(progress)),
        );
    operation::lemma_walk(middle, replies, asked, k, op);
    operation::lemma_leads_further(
        start,
        found,
        first,
        middle,
        replies.take(k),
        asked.take(k),
        Progress::Call(op, asked[k]),
    );
    operation::lemma_explains_failure(
        start,
        found + replies.take(k),
        first + asked.take(k),
        op,
        asked[k],
        hold,
        operation::just_the_error::<bool>(),
    );
    if k + 1 == replies.len() {
        operation::lemma_leads_further(
            start,
            found,
            first,
            middle,
            replies,
            asked,
            op.next(replies[k]),
        );
    }
}

/// The commands that ask for some elements of an array, one after the other.
pub open spec fn elements(array: ObjectId, from: int, count: nat) -> Seq<Command> {
    Seq::new(count, |i: int| Command::ArrayElement { array, index: (from + i) as i32 })
}

proof fn lemma_collects(
    array: ObjectId,
    index: int,
    len: i32,
    devices: Seq<BluetoothDevice>,
    objects: Seq<ObjectId>,
)
    requires
        0 <= index,
        index + objects.len() <= len,
    ensures
        operation::leads_to(
            GetBondedModel::collected(array, index, len, devices),
            bringing(objects),
            elements(array, index, objects.len()),
            GetBondedModel::collected(
                array,
                index + objects.len(),
                len,
                devices + devices_of(objects),
            ),
        ),
    decreases objects.len(),
{
    let start = GetBondedModel::collected(array, index, len, devices);
    if objects.len() == 0 {
        assert(devices + devices_of(objects) =~= devices);
        assert(bringing(objects) =~= Seq::empty());
        assert(elements(array, index, 0) =~= Seq::empty());
    } else {
        let device = BluetoothDevice { internal: objects.first() };
        let rest = objects.drop_first();
        let one = seq![Reply::Object(objects.first())];
        let asked = seq![Command::ArrayElement { array, index: index as i32 }];
        let op = GetBondedModel::Collecting { array, index: index as i32, len, devices };
        let next = GetBondedModel::collected(array, index + 1, len, devices.push(device));
        let end = GetBondedModel::collected(
            array,
            index + objects.len(),
            len,
            devices + devices_of(objects),
        );
        operation::lemma_walk(start, one, asked, 0, op);
        lemma_collects(array, index + 1, len, devices.push(device), rest);
        assert(devices.push(device) + devices_of(rest) =~= devices + devices_of(objects));
        operation::lemma_leads_further(
            start,
            one,
            asked,
            next,
            bringing(rest),
            elements(array, index + 1, rest.len()),
            end,
        );
        assert(one + bringing(rest) =~= bringing(objects));
        assert(asked + elements(array, index + 1, rest.len()) =~= elements(
            array,
            index,
            objects.len(),
        ));
    }
}

/// How the bonded devices are listed. It is found out, with the commands of [`is_enabled`] and no
/// others, whether Bluetooth is enabled, and then, with those of [`bluetooth_adapter`], the
/// adapter. The adapter is asked for the set of bonded devices, the set for an array, and the array
/// for its length and for its elements: for each of them once, from the first to the last. The list
/// is of these elements.
pub proof fn law_bonded_devices_conversation(
    asked: Seq<Reply>,
    enabled: Result<bool, BluetoothError>,
    found: Seq<Reply>,
    outcome: Result<ObjectId, BluetoothError>,
    set: ObjectId,
    array: ObjectId,
    contents: Seq<ObjectId>,
)
    requires
        operation::ends_with(asking_enabled(), asked, enabled),
        operation::ends_with(finding_adapter(), found, outcome),
        contents.len() <= i32::MAX,
    ensures
        ({
            let start = getting_bonded();
            let first = operation::answered(asking_enabled(), asked);
            let second = operation::answered(finding_adapter(), found);
            match (enabled, outcome) {
                (Err(error), _) => operation::leads_to(
                    start,
                    asked,
                    first,
                    Progress::Finish(Err(error)),
                ),
                (Ok(false), _) => operation::leads_to(
                    start,
                    asked,
                    first,
                    Progress::Finish(Ok(Seq::empty())),
                ),
                (Ok(true), Err(error)) => operation::leads_to(
                    start,
                    asked + found,
                    first + second,
                    Progress::Finish(Err(error)),
                ),
                (Ok(true), Ok(adapter)) => {
                    let replies = seq![
                        Reply::Done,
                        Reply::Object(set),
                        Reply::Object(array),
                        Reply::Int(contents.len() as i32),
                    ];
                    let commands = seq![
                        Command::AttachVm,
                        Command::CallObject {
                            target: Target::Object(adapter),
                            method: JavaMethod::GetBondedDevices,
                            argument: None,
                        },
                        Command::CallObject {
                            target: Target::Object(set),
                            method: JavaMethod::ToArray,
                            argument: None,
                        },
                        Command::ArrayLength(array),
                    ];
                    &&& set != ObjectId(0) ==> operation::leads_to(
                        start,
                        (asked + found) + replies + Seq::new(
                            contents.len(),
                            |i: int| Reply::Object(contents[i]),
                        ),
                        (first + second) + commands + Seq::new(
                            contents.len(),
                            |i: int| Command::ArrayElement { array, index: i as i32 },
                        ),
                        Progress::Finish(
                            Ok(
                                Seq::new(
                                    contents.len(),
                                    |i: int| BluetoothDevice { internal: contents[i] },
                                ),
                            ),
                        ),
                    )
                    &&& set == ObjectId(0) ==> operation::leads_to(
                        start,
                        (asked + found) + replies.take(2),
                        (first + second) + commands.take(2),
                        Progress::Finish(Err(BluetoothError::PermissionDenied)),
                    )
                    &&& forall|k: int|
                        0 <= k < 2 || (0 <= k < 4 && set != ObjectId(0))
                            ==> operation::explains_failure_at(
                            start,
                            (asked + found) + #[trigger] replies.take(k),
                            operation::just_the_error::<Seq<BluetoothDevice>>(),
                        )
                    &&& forall|k: int|
                        0 <= k < contents.len() && set != ObjectId(0)
                            ==> operation::explains_failure_at(
                            start,
                            (asked + found) + replies + bringing(#[trigger] contents.take(k)),
                            operation::just_the_error::<Seq<BluetoothDevice>>(),
                        )
                },
            }
        }),
{
    let start = getting_bonded();
    let first = operation::answered(asking_enabled(), asked);
    let second = operation::answered(finding_adapter(), found);
    let hold_enabled = |progress: Progress<IsEnabled, Result<bool, BluetoothError>>|
        GetBondedModel::of_enabled(progress);
    let hold_find = |progress: Progress<FindAdapter, Result<ObjectId, BluetoothError>>|
        GetBondedModel::of_find(progress);
    operation::lemma_held_leads(hold_enabled, asking_enabled(), asked, enabled);
    if enabled == Ok::<bool, BluetoothError>(true) {
        let attaching = GetBondedModel::of_find(Progress::Finish(outcome));
        operation::lemma_held_leads(hold_find, finding_adapter(), found, outcome);
        operation::lemma_leads_further(
            start,
            asked,
            first,
            hold_find(finding_adapter()),
            found,
            second,
            attaching,
        );
        if let Ok(adapter) = outcome {
            let len = contents.len() as i32;
            let replies = seq![
                Reply::Done,
                Reply::Object(set),
                Reply::Object(array),
                Reply::Int(len),
            ];
            let commands = seq![
                Command::AttachVm,
                Command::CallObject {
                    target: Target::Object(adapter),
                    method: JavaMethod::GetBondedDevices,
                    argument: None,
                },
                Command::CallObject {
                    target: Target::Object(set),
                    method: JavaMethod::ToArray,
                    argument: None,
                },
                Command::ArrayLength(array),
            ];
            let before = asked + found;
            let done = first + second;
            let attach = GetBondedModel::Attaching { adapter };
            let listing = GetBondedModel::Listing;
            let arraying = GetBondedModel::Arraying;
            let measuring = GetBondedModel::Measuring { array };
            lemma_bonded_walk(before, done, attaching, replies, commands, 0, attach);
            lemma_bonded_walk(before, done, attaching, replies, commands, 1, listing);
            if set != ObjectId(0) {
                lemma_bonded_walk(before, done, attaching, replies, commands, 2, arraying);
                lemma_bonded_walk(before, done, attaching, replies, commands, 3, measuring);
                lemma_bonded_elements(
                    before + replies,
                    done + commands,
                    array,
                    contents,
                );
            }
        }
    }
}

/// One step towards the array of bonded devices, and the failure that can come in its place.
proof fn lemma_bonded_walk(
    before: Seq<Reply>,
    done: Seq<Command>,
    middle: Progress<GetBondedModel, Result<Seq<BluetoothDevice>, BluetoothError>>,
    replies: Seq<Reply>,
    commands: Seq<Command>,
    k: int,
    op: GetBondedModel,
)
    requires
        0 <= k < replies.len(),
        replies.len() == commands.len(),
        operation::leads_to(getting_bonded(), before, done, middle),
        k == 0 ==> middle == Progress::<
            GetBondedModel,
            Result<Seq<BluetoothDevice>, BluetoothError>,
        >::Call(op, commands[0]),
        k > 0 ==> operation::leads_to(
            middle,
            replies.take(k),
            commands.take(k),
            Progress::Call(op, commands[k]),
        ),
        op.wanted().admits(replies[k]),
        op is Attaching || op is Listing || op is Arraying || op is Measuring,
    ensures
        operation::explains_failure_at(
            getting_bonded(),
            before + replies.take(k),
            operation::just_the_error::<Seq<BluetoothDevice>>(),
        ),
        operation::leads_to(middle, replies.take(k + 1), commands.take(k + 1), op.next(replies[k])),
        operation::leads_to(
            getting_bonded(),
            before + replies.take(k + 1),
            done + commands.take(k + 1),
            op.next(replies[k]),
        ),
        k + 1 == replies.len() ==> operation::leads_to(
            getting_bonded(),
            before + replies,
            done + commands,
            op.next(replies[k]),
        ),
{
    let start = getting_bonded();
    let hold = |progress: Progress<Jerr, BluetoothError>| GetBondedModel::of_jerr(progress);
    operation::lemma_walk(middle, replies, commands, k, op);
    operation::lemma_leads_further(
        start,
        before,
        done,
        middle,
        replies.take(k),
        commands.take(k),
        Progress::Call(op, commands[k]),
    );
    operation::lemma_leads_further(
        start,
        before,
        done,
        middle,
        replies.take(k + 1),
        commands.take(k + 1),
        op.next(replies[k]),
    );
    operation::lemma_explains_failure(
        start,
        before + replies.take(k),
        done + commands.take(k),
        op,
        commands[k],
        hold,
        operation::just_the_error::<Seq<BluetoothDevice>>(),
    );
    assert(replies.take(replies.len() as int) =~= replies);
    assert(commands.take(commands.len() as int) =~= commands);
}

proof fn lemma_bonded_elements(
    before: Seq<Reply>,
    done: Seq<Command>,
    array: ObjectId,
    contents: Seq<ObjectId>,
)
    requires
        contents.len() <= i32::MAX,
        operation::leads_to(
            getting_bonded(),
            before,
            done,
            GetBondedModel::collected(array, 0, contents.len() as i32, Seq::empty()),
        ),
    ensures
        operation::leads_to(
            getting_bonded(),
            before + Seq::new(contents.len(), |i: int| Reply::Object(contents[i])),
            done + Seq::new(
                contents.len(),
                |i: int| Command::ArrayElement { array, index: i as i32 },
            ),
            Progress::Finish(
                Ok(Seq::new(contents.len(), |i: int| BluetoothDevice { internal: contents[i] })),
            ),
        ),
        forall|k: int|
            0 <= k < contents.len() ==> operation::explains_failure_at(
                getting_bonded(),
                before + bringing(#[trigger] contents.take(k)),
                operation::just_the_error::<Seq<BluetoothDevice>>(),
            ),
{
    let start = getting_bonded();
    let len = contents.len() as i32;
    let collecting = GetBondedModel::collected(array, 0, len, Seq::empty());
    let hold = |progress: Progress<Jerr, BluetoothError>| GetBondedModel::of_jerr(progress);
    lemma_collects(array, 0, len, Seq::empty(), contents);
    assert(Seq::<BluetoothDevice>::empty() + devices_of(contents) =~= Seq::new(
        contents.len(),
        |i: int| BluetoothDevice { internal: contents[i] },
    ));
    assert(bringing(contents) =~= Seq::new(contents.len(), |i: int| Reply::Object(contents[i])));
    assert(elements(array, 0, contents.len()) =~= Seq::new(
        contents.len(),
        |i: int| Command::ArrayElement { array, index: i as i32 },
    ));
    operation::lemma_leads_further(
        start,
        before,
        done,
        collecting,
        bringing(contents),
        elements(array, 0, contents.len()),
        GetBondedModel::collected(array, len as int, len, Seq::empty() + devices_of(contents)),
    );
    assert forall|k: int| 0 <= k < contents.len() implies operation::explains_failure_at(
        start,
        before + bringing(#[trigger] contents.take(k)),
        operation::just_the_error::<Seq<BluetoothDevice>>(),
    ) by {
        let some = contents.take(k);
        let devices = Seq::empty() + devices_of(some);
        let op = GetBondedModel::Collecting { array, index: k as i32, len, devices };
        let command = Command::ArrayElement { array, index: k as i32 };
        lemma_collects(array, 0, len, Seq::empty(), some);
        operation::lemma_leads_further(
            start,
            before,
            done,
            collecting,
            bringing(some),
            elements(array, 0, some.len()),
            Progress::Call(op, command),
        );
        operation::lemma_explains_failure(
            start,
            before + bringing(some),
            done + elements(array, 0, some.len()),
            op,
            command,
            hold,
            operation::just_the_error::<Seq<BluetoothDevice>>(),
        );
    }
}

} // verus!
