//! The control API: what deploy, start and stop do to the registry and
//! what they answer.
//!
//! Transport, routing and the reading of the multipart stream are outside;
//! a handler here takes the request as plain values and answers the body of
//! a `200` response or the status of the failure.

use vstd::prelude::*;

use crate::db::{DbView, ModuleDatabase};
use crate::journal::{changes_view, insert_changes, lemma_apply_all_concat, state_changes, tables_of, RowChange, RowChangeView};
use crate::state::ModuleState;

verus! {

/// The status of a malformed request.
pub const BAD_REQUEST: u16 = 400;

/// The status of a request that the registry refused.
pub const INTERNAL_SERVER_ERROR: u16 = 500;

/// What a handler answers: the body of a `200` response or the status of
/// the failure, and the row writes that persist what the request did to
/// the registry.
#[derive(Debug)]
pub struct Handled<'a> {
    pub response: Result<String, u16>,
    pub changes: Vec<RowChange<'a>>,
}

/// Whether a response is the one that was to be given.
pub open spec fn responds(response: Result<String, u16>, expected: Result<Seq<char>, u16>) -> bool {
    match (response, expected) {
        (Ok(body), Ok(name)) => body@ == name,
        (Err(status), Err(status_expected)) => status == status_expected,
        _ => false,
    }
}

/// One field of a multipart form.
#[derive(Debug, Clone)]
pub struct FormField {
    /// The name of the field.
    pub name: String,
    /// The file name that the field carries, if any.
    pub file_name: Option<String>,
    /// The content of the field.
    pub data: Vec<u8>,
}

/// A field of a form as a mathematical value.
pub struct FormFieldView {
    pub name: Seq<char>,
    pub file_name: Option<Seq<char>>,
    pub data: Seq<u8>,
}

impl View for FormField {
    type V = FormFieldView;

    open spec fn view(&self) -> FormFieldView {
        FormFieldView {
            name: self.name@,
            file_name: match self.file_name {
                Some(file_name) => Some(file_name@),
                None => None,
            },
            data: self.data@,
        }
    }
}

/// The fields of a form as mathematical values.
pub open spec fn form_view(form: Seq<FormField>) -> Seq<FormFieldView> {
    form.map_values(|field: FormField| field@)
}

/// What deploying the fields of a form does, given the registry so far and
/// the name of the last module that was deployed from the form (empty if
/// none was). Fields other than `module` are passed over. A `module` field
/// is deployed under its file name; one without a file name ends the
/// request with `400`, one that the registry refuses ends it with `500`,
/// and what was deployed before stays. A form without a `module` field is
/// answered with `400`; otherwise the answer is the name of its last module.
pub open spec fn deploy_fields(db: DbView, fields: Seq<FormFieldView>, last: Seq<char>) -> (
    DbView,
    Result<Seq<char>, u16>,
)
    decreases fields.len(),
{
    if fields.len() == 0 {
        (
            db,
            if last.len() == 0 {
                Err(BAD_REQUEST)
            } else {
                Ok(last)
            },
        )
    } else {
        let field = fields.first();
        let rest = fields.drop_first();
        if field.name != "module"@ {
            deploy_fields(db, rest, last)
        } else if field.file_name.is_none() || field.file_name.unwrap().len() == 0 {
            (db, Err(BAD_REQUEST))
        } else if db.insert_outcome(field.file_name.unwrap()) is Err {
            (db, Err(INTERNAL_SERVER_ERROR))
        } else {
            deploy_fields(
                db.inserted(field.file_name.unwrap(), field.data),
                rest,
                field.file_name.unwrap(),
            )
        }
    }
}

/// What deploying a whole form does to the registry and what it answers.
pub open spec fn deploy_form(db: DbView, fields: Seq<FormFieldView>) -> (
    DbView,
    Result<Seq<char>, u16>,
) {
    deploy_fields(db, fields, Seq::empty())
}

/// The row writes that persist the deployment of the fields of a form: for
/// each module that was registered, its module row and its state row.
pub open spec fn deploy_writes(db: DbView, fields: Seq<FormFieldView>) -> Seq<RowChangeView>
    decreases fields.len(),
{
    if fields.len() == 0 {
        Seq::empty()
    } else {
        let field = fields.first();
        let rest = fields.drop_first();
        if field.name != "module"@ {
            deploy_writes(db, rest)
        } else if field.file_name.is_none() || field.file_name.unwrap().len() == 0 {
            Seq::empty()
        } else {
            match db.insert_outcome(field.file_name.unwrap()) {
                Ok(id) => insert_changes(id, field.file_name.unwrap(), field.data) + deploy_writes(
                    db.inserted(field.file_name.unwrap(), field.data),
                    rest,
                ),
                Err(_) => Seq::empty(),
            }
        }
    }
}

/// `POST /deploy`: registers the modules of the form, each `module` field
/// under its file name, and answers the name of the last one.
pub fn deploy<'a>(db: &mut ModuleDatabase, form: &'a Vec<FormField>) -> (handled: Handled<'a>)
    requires
        old(db).wf(),
    ensures
        final(db).wf(),
        final(db)@ == deploy_form(old(db)@, form_view(form@)).0,
        responds(handled.response, deploy_form(old(db)@, form_view(form@)).1),
        changes_view(handled.changes@) == deploy_writes(old(db)@, form_view(form@)),
        tables_of(old(db)@).apply_all(changes_view(handled.changes@)) == tables_of(final(db)@),
{
    let ghost fields = form_view(form@);
    let ghost before = db@;
    let wanted = "module".to_owned();
    let mut changes: Vec<RowChange<'a>> = Vec::new();
    let mut last = String::new();
    let mut i: usize = 0;
    proof {
        assert(fields.skip(0) =~= fields);
        assert(changes_view(changes@) =~= Seq::empty());
        assert(changes_view(changes@) + deploy_writes(before, fields) =~= deploy_writes(
            before,
            fields,
        ));
    }
    while i < form.len()
        invariant
            i <= form.len(),
            fields == form_view(form@),
            wanted@ == "module"@,
            db.wf(),
            before == old(db)@,
            deploy_form(before, fields) == deploy_fields(db@, fields.skip(i as int), last@),
            deploy_writes(before, fields) == changes_view(changes@) + deploy_writes(
                db@,
                fields.skip(i as int),
            ),
            tables_of(before).apply_all(changes_view(changes@)) == tables_of(db@),
        decreases form.len() - i,
    {
        let field = &form[i];
        proof {
            assert(fields.skip(i as int).first() == field@);
            assert(fields.skip(i as int).drop_first() =~= fields.skip(i + 1));
        }
        if field.name == wanted {
            match &field.file_name {
                Some(file_name) => {
                    if file_name.as_str().is_empty() {
                        proof {
                            assert(changes_view(changes@) + Seq::<RowChangeView>::empty()
                                =~= changes_view(changes@));
                        }
                        return Handled { response: Err(BAD_REQUEST), changes };
                    }
                    let ghost so_far = changes_view(changes@);
                    let ghost current = db@;
                    let (outcome, mut writes) = crate::journal::insert(
                        db,
                        file_name.as_str(),
                        field.data.as_slice(),
                    );
                    let ghost written = changes_view(writes@);
                    changes.append(&mut writes);
                    proof {
                        assert(changes_view(changes@) =~= so_far + written);
                        lemma_apply_all_concat(tables_of(before), so_far, written);
                    }
                    if outcome.is_err() {
                        return Handled { response: Err(INTERNAL_SERVER_ERROR), changes };
                    }
                    proof {
                        assert(so_far + (written + deploy_writes(db@, fields.skip(i + 1))) =~= (
                        so_far + written) + deploy_writes(db@, fields.skip(i + 1)));
                    }
                    last = file_name.clone();
                },
                None => {
                    proof {
                        assert(changes_view(changes@) + Seq::<RowChangeView>::empty()
                            =~= changes_view(changes@));
                    }
                    return Handled { response: Err(BAD_REQUEST), changes };
                },
            }
        }
        i += 1;
    }
    proof {
        assert(changes_view(changes@) + Seq::<RowChangeView>::empty() =~= changes_view(changes@));
    }
    if last.as_str().is_empty() {
        Handled { response: Err(BAD_REQUEST), changes }
    } else {
        Handled { response: Ok(last), changes }
    }
}

/// What setting the state of a module answers: its name, or `500` if no
/// module has that name.
pub open spec fn state_response(db: DbView, module: Seq<char>) -> Result<Seq<char>, u16> {
    if db.has_name(module) {
        Ok(module)
    } else {
        Err(INTERNAL_SERVER_ERROR)
    }
}

fn set_module_state(db: &mut ModuleDatabase, module: &str, state: ModuleState) -> (handled: Handled<
    'static,
>)
    requires
        old(db).wf(),
    ensures
        final(db).wf(),
        final(db)@ == old(db)@.with_state(module@, state),
        responds(handled.response, state_response(old(db)@, module@)),
        changes_view(handled.changes@) == (match old(db)@.id_of(module@) {
            Some(id) => state_changes(id, state),
            None => Seq::empty(),
        }),
        tables_of(old(db)@).apply_all(changes_view(handled.changes@)) == tables_of(final(db)@),
{
    let (outcome, changes) = crate::journal::set_state(db, module, state);
    match outcome {
        Ok(()) => Handled { response: Ok(module.to_owned()), changes },
        Err(_) => Handled { response: Err(INTERNAL_SERVER_ERROR), changes },
    }
}

/// `POST /start`: sets the module to `Started` and answers its name.
pub fn start(db: &mut ModuleDatabase, module: &str) -> (handled: Handled<'static>)
    requires
        old(db).wf(),
    ensures
        final(db).wf(),
        final(db)@ == old(db)@.with_state(module@, ModuleState::Started),
        responds(handled.response, state_response(old(db)@, module@)),
        changes_view(handled.changes@) == (match old(db)@.id_of(module@) {
            Some(id) => state_changes(id, ModuleState::Started),
            None => Seq::empty(),
        }),
        tables_of(old(db)@).apply_all(changes_view(handled.changes@)) == tables_of(final(db)@),
{
    set_module_state(db, module, ModuleState::Started)
}

/// `POST /stop`: sets the module to `Stopped` and answers its name.
pub fn stop(db: &mut ModuleDatabase, module: &str) -> (handled: Handled<'static>)
    requires
        old(db).wf(),
    ensures
        final(db).wf(),
        final(db)@ == old(db)@.with_state(module@, ModuleState::Stopped),
        responds(handled.response, state_response(old(db)@, module@)),
        changes_view(handled.changes@) == (match old(db)@.id_of(module@) {
            Some(id) => state_changes(id, ModuleState::Stopped),
            None => Seq::empty(),
        }),
        tables_of(old(db)@).apply_all(changes_view(handled.changes@)) == tables_of(final(db)@),
{
    set_module_state(db, module, ModuleState::Stopped)
}

} // verus!
