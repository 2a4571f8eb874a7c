//! Whether a runtime can run a model.
use vstd::prelude::*;
use vstd::string::*;

use crate::model_definition::{ranks_fault, ModelDefinition};
use crate::models::RuntimeDtype;
use crate::text::{cat2, cat3, cat5, decimal, decimal_usize, texts};

verus! {

/// Why a model was not loaded.
#[derive(Clone, Debug, PartialEq, Eq)]
pub enum ModelRuntimeLoadError {
    MissingCapabilities(Vec<String>),
    Load(String),
}

/// What a [`ModelRuntimeLoadError`] says.
pub enum RuntimeFault {
    MissingCapabilities(Seq<Seq<char>>),
    Load(Seq<char>),
}

impl View for ModelRuntimeLoadError {
    type V = RuntimeFault;

    open spec fn view(&self) -> RuntimeFault {
        match *self {
            ModelRuntimeLoadError::MissingCapabilities(missing) => {
                RuntimeFault::MissingCapabilities(texts(missing@))
            },
            ModelRuntimeLoadError::Load(message) => RuntimeFault::Load(message@),
        }
    }
}

/// The first `n` texts, with commas between them.
pub open spec fn comma_list(list: Seq<Seq<char>>, n: nat) -> Seq<char>
    decreases n,
{
    if n == 0 || n > list.len() {
        Seq::empty()
    } else if n == 1 {
        list[0]
    } else {
        comma_list(list, (n - 1) as nat) + ", "@ + list[n - 1]
    }
}

/// The texts, with commas between them.
pub fn join_commas(list: &Vec<String>) -> (text: String)
    ensures
        text@ == comma_list(texts(list@), list@.len()),
{
    let ghost all = texts(list@);
    let mut text = String::new();
    let mut i: usize = 0;
    proof {
        assert(text@ =~= comma_list(all, 0));
    }
    while i < list.len()
        invariant
            i <= list@.len(),
            all == texts(list@),
            text@ == comma_list(all, i as nat),
        decreases list@.len() - i,
    {
        proof {
            assert(all[i as int] == list@[i as int]@);
        }
        if i == 0 {
            text = list[i].clone();
        } else {
            text = cat3(text.as_str(), ", ", list[i].as_str());
        }
        i = i + 1;
    }
    text
}

impl ModelRuntimeLoadError {
    /// The message of the error.
    pub fn to_string(&self) -> (message: String)
        ensures
            message@ == match self@ {
                RuntimeFault::MissingCapabilities(missing) => "missing capabilities: "@
                    + comma_list(missing, missing.len()),
                RuntimeFault::Load(message) => message,
            },
    {
        match self {
            ModelRuntimeLoadError::MissingCapabilities(missing) => cat2(
                "missing capabilities: ",
                join_commas(missing).as_str(),
            ),
            ModelRuntimeLoadError::Load(message) => message.clone(),
        }
    }
}

/// How the number types are called.
#[derive(Debug)]
pub struct DtypeNames {
    pub full: String,
    pub half: String,
    pub brain: String,
}

impl DtypeNames {
    /// How a number type is called.
    pub open spec fn name(self, dtype: RuntimeDtype) -> Seq<char> {
        match dtype {
            RuntimeDtype::F32 => self.full@,
            RuntimeDtype::Fp16 => self.half@,
            RuntimeDtype::Bf16 => self.brain@,
        }
    }

    /// How a number type is called.
    pub fn name_of(&self, dtype: RuntimeDtype) -> (name: &str)
        ensures
            name@ == self.name(dtype),
    {
        match dtype {
            RuntimeDtype::F32 => self.full.as_str(),
            RuntimeDtype::Fp16 => self.half.as_str(),
            RuntimeDtype::Bf16 => self.brain.as_str(),
        }
    }
}

/// How several number types are called.
pub open spec fn dtype_names(dtypes: Seq<RuntimeDtype>, names: DtypeNames) -> Seq<Seq<char>> {
    dtypes.map_values(|dtype: RuntimeDtype| names.name(dtype))
}

/// Several number types as a text.
pub open spec fn dtypes_text(dtypes: Seq<RuntimeDtype>, names: DtypeNames) -> Seq<char> {
    if dtypes.len() == 0 {
        "none"@
    } else {
        comma_list(dtype_names(dtypes, names), dtypes.len())
    }
}

/// Several number types as a text.
pub fn format_dtypes(dtypes: &Vec<RuntimeDtype>, names: &DtypeNames) -> (text: String)
    ensures
        text@ == dtypes_text(dtypes@, *names),
{
    if dtypes.len() == 0 {
        return "none".to_owned();
    }
    let mut list: Vec<String> = Vec::new();
    let mut i: usize = 0;
    while i < dtypes.len()
        invariant
            i <= dtypes@.len(),
            list@.len() == i,
            forall|j: int| 0 <= j < i ==> (#[trigger] list@[j])@ == names.name(dtypes@[j]),
        decreases dtypes@.len() - i,
    {
        list.push(names.name_of(dtypes[i]).to_owned());
        i = i + 1;
    }
    proof {
        assert(texts(list@) =~= dtype_names(dtypes@, *names));
    }
    join_commas(&list)
}

/// Why so many ranks cannot be run.
pub open spec fn parallelism_fault(tensor_parallel_size: usize) -> Option<Seq<char>> {
    if tensor_parallel_size == 0 {
        Some("tensor parallel size must be positive"@)
    } else if tensor_parallel_size == 1 {
        None
    } else {
        Some(
            "tensor parallel execution requires a WorkerGroup, rank lifecycle, and collective backend; the runtime currently supports tp_size=1 (requested "@
                + decimal(tensor_parallel_size as nat) + ")"@,
        )
    }
}

/// Whether so many ranks can be run: one.
pub fn validate_runtime_parallelism(tensor_parallel_size: usize) -> (valid: Result<(), String>)
    ensures
        match valid {
            Ok(_) => parallelism_fault(tensor_parallel_size) is None,
            Err(message) => parallelism_fault(tensor_parallel_size) == Some(message@),
        },
{
    if tensor_parallel_size == 0 {
        return Err("tensor parallel size must be positive".to_owned());
    }
    if tensor_parallel_size == 1 {
        return Ok(());
    }
    Err(
        cat3(
            "tensor parallel execution requires a WorkerGroup, rank lifecycle, and collective backend; the runtime currently supports tp_size=1 (requested ",
            decimal_usize(tensor_parallel_size).as_str(),
            ")",
        ),
    )
}

/// Whether two lists of number types have one in common.
pub open spec fn share_dtype(a: Seq<RuntimeDtype>, b: Seq<RuntimeDtype>) -> bool {
    exists|i: int| 0 <= i < a.len() && b.contains(#[trigger] a[i])
}

/// What can be run of a backend: its name, its number types, and what it says that it lacks for the
/// model.
#[derive(Debug)]
pub struct BackendOffer {
    pub name: String,
    pub supported_dtypes: Vec<RuntimeDtype>,
    pub missing_components: Vec<String>,
}

/// What is missing for a backend to run a model on one rank.
pub open spec fn missing_for(
    definition: ModelDefinition,
    offer: BackendOffer,
    names: DtypeNames,
) -> Seq<Seq<char>> {
    let dtypes = if share_dtype(definition.supported_dtypes@, offer.supported_dtypes@) {
        Seq::<Seq<char>>::empty()
    } else {
        seq![
            "execution dtype supported by both model ("@ + dtypes_text(
                definition.supported_dtypes@,
                names,
            ) + ") and "@ + offer.name@ + " backend ("@ + dtypes_text(
                offer.supported_dtypes@,
                names,
            ) + ")"@,
        ]
    };
    dtypes + texts(offer.missing_components@)
}

/// Why a backend cannot run a model.
pub open spec fn support_fault(
    definition: ModelDefinition,
    offer: BackendOffer,
    names: DtypeNames,
    tensor_parallel_size: usize,
) -> Option<RuntimeFault> {
    match parallelism_fault(tensor_parallel_size) {
        Some(message) => Some(RuntimeFault::MissingCapabilities(seq![message])),
        None => match ranks_fault(definition.execution, tensor_parallel_size) {
            Some(message) => Some(RuntimeFault::MissingCapabilities(seq![message])),
            None => {
                let missing = missing_for(definition, offer, names);
                if missing.len() == 0 {
                    None
                } else {
                    Some(RuntimeFault::MissingCapabilities(missing))
                }
            },
        },
    }
}

fn has_dtype(dtypes: &Vec<RuntimeDtype>, dtype: RuntimeDtype) -> (found: bool)
    ensures
        found == dtypes@.contains(dtype),
{
    let mut i: usize = 0;
    while i < dtypes.len()
        invariant
            i <= dtypes@.len(),
            forall|j: int| 0 <= j < i ==> dtypes@[j] != dtype,
        decreases dtypes@.len() - i,
    {
        if dtypes[i] == dtype {
            return true;
        }
        i = i + 1;
    }
    false
}

fn have_common_dtype(a: &Vec<RuntimeDtype>, b: &Vec<RuntimeDtype>) -> (common: bool)
    ensures
        common == share_dtype(a@, b@),
{
    let mut i: usize = 0;
    while i < a.len()
        invariant
            i <= a@.len(),
            forall|j: int| 0 <= j < i ==> !b@.contains(#[trigger] a@[j]),
        decreases a@.len() - i,
    {
        if has_dtype(b, a[i]) {
            return true;
        }
        i = i + 1;
    }
    false
}

fn one(message: String) -> (error: ModelRuntimeLoadError)
    ensures
        error@ == RuntimeFault::MissingCapabilities(seq![message@]),
{
    let ghost said = message@;
    let mut missing: Vec<String> = Vec::new();
    missing.push(message);
    proof {
        assert(texts(missing@) =~= seq![said]);
    }
    ModelRuntimeLoadError::MissingCapabilities(missing)
}

/// Whether a backend can run a model.
pub fn validate_runtime_support(
    definition: &ModelDefinition,
    offer: &BackendOffer,
    names: &DtypeNames,
    tensor_parallel_size: usize,
) -> (valid: Result<(), ModelRuntimeLoadError>)
    ensures
        match valid {
            Ok(_) => support_fault(*definition, *offer, *names, tensor_parallel_size) is None,
            Err(e) => support_fault(*definition, *offer, *names, tensor_parallel_size) == Some(e@),
        },
{
    if let Err(message) = validate_runtime_parallelism(tensor_parallel_size) {
        return Err(one(message));
    }
    if let Err(message) = definition.validate_tensor_parallel(tensor_parallel_size) {
        return Err(one(message));
    }
    let mut missing: Vec<String> = Vec::new();
    if !have_common_dtype(&definition.supported_dtypes, &offer.supported_dtypes) {
        let head = cat3(
            "execution dtype supported by both model (",
            format_dtypes(&definition.supported_dtypes, names).as_str(),
            ") and ",
        );
        missing.push(
            cat5(
                head.as_str(),
                offer.name.as_str(),
                " backend (",
                format_dtypes(&offer.supported_dtypes, names).as_str(),
                ")",
            ),
        );
        proof {
            let text = "execution dtype supported by both model ("@ + dtypes_text(
                definition.supported_dtypes@,
                *names,
            ) + ") and "@ + offer.name@ + " backend ("@ + dtypes_text(
                offer.supported_dtypes@,
                *names,
            ) + ")"@;
            assert(missing@[0]@ =~= text);
            assert(texts(missing@) =~= seq![text]);
        }
    }
    let ghost first = texts(missing@);
    let mut i: usize = 0;
    proof {
        assert(texts(missing@) =~= first + texts(offer.missing_components@).take(0));
    }
    while i < offer.missing_components.len()
        invariant
            i <= offer.missing_components@.len(),
            texts(missing@) == first + texts(offer.missing_components@).take(i as int),
        decreases offer.missing_components@.len() - i,
    {
        let ghost before = texts(missing@);
        missing.push(offer.missing_components[i].clone());
        proof {
            let all = texts(offer.missing_components@);
            assert(all[i as int] == offer.missing_components@[i as int]@);
            assert(texts(missing@) =~= before.push(all[i as int]));
            assert(texts(missing@) =~= first + all.take(i + 1));
        }
        i = i + 1;
    }
    proof {
        assert(texts(offer.missing_components@).take(i as int) =~= texts(
            offer.missing_components@,
        ));
        if first.len() == 0 {
            assert(first =~= Seq::empty());
        }
        assert(texts(missing@) =~= missing_for(*definition, *offer, *names));
    }
    if missing.len() == 0 {
        Ok(())
    } else {
        Err(ModelRuntimeLoadError::MissingCapabilities(missing))
    }
}

/// Whether the number type in which a model was loaded is one of those in which it can be run.
pub fn check_execution_dtype(
    definition: &ModelDefinition,
    names: &DtypeNames,
    execution_dtype: RuntimeDtype,
) -> (valid: Result<(), ModelRuntimeLoadError>)
    ensures
        match valid {
            Ok(_) => definition.supported_dtypes@.contains(execution_dtype),
            Err(e) => !definition.supported_dtypes@.contains(execution_dtype) && e@
                == RuntimeFault::MissingCapabilities(
                seq!["model execution dtype "@ + names.name(execution_dtype)],
            ),
        },
{
    if has_dtype(&definition.supported_dtypes, execution_dtype) {
        Ok(())
    } else {
        Err(one(cat2("model execution dtype ", names.name_of(execution_dtype))))
    }
}

} // verus!
