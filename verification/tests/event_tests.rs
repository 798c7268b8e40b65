use hotfnl::event::{new_event_list, HotLibEvent, HotLibEventLocal, HotLibEvents};
use std::cell::RefCell;
use std::rc::Rc;

type Cb = Box<dyn Fn(HotLibEvents)>;

fn recorder(log: &Rc<RefCell<Vec<String>>>, tag: &'static str) -> Cb {
    let log = log.clone();
    Box::new(move |e| log.borrow_mut().push(format!("{}:{:?}", tag, e)))
}

fn ids(e: &HotLibEvent<Cb>) -> Vec<usize> {
    e.events.iter().map(|x| x.id).collect()
}

#[test]
fn default_event_is_patch_success() {
    assert_eq!(HotLibEvents::default(), HotLibEvents::PatchSuccess);
}

#[test]
fn push_gives_fresh_ids() {
    let log = Rc::new(RefCell::new(vec![]));
    let mut e: HotLibEvent<Cb> = new_event_list();
    assert_eq!(e.push(recorder(&log, "a")), 0);
    assert_eq!(e.push(recorder(&log, "b")), 1);
    assert_eq!(e.push(recorder(&log, "c")), 2);
    assert_eq!(ids(&e), vec![0, 1, 2]);
}

#[test]
fn trigger_calls_in_registration_order() {
    let log = Rc::new(RefCell::new(vec![]));
    let mut e: HotLibEvent<Cb> = HotLibEvent::new();
    e.push(recorder(&log, "a"));
    e.global(recorder(&log, "b"));
    e.trigger(HotLibEvents::CleanUp);
    assert_eq!(*log.borrow(), vec!["a:CleanUp", "b:CleanUp"]);
}

#[test]
fn remove_takes_out_only_that_callback() {
    let log = Rc::new(RefCell::new(vec![]));
    let mut e: HotLibEvent<Cb> = HotLibEvent::new();
    e.push(recorder(&log, "a"));
    let id = e.push(recorder(&log, "b"));
    e.push(recorder(&log, "c"));
    e.remove(id);
    assert_eq!(ids(&e), vec![0, 2]);
    e.remove(id);
    e.remove(99);
    assert_eq!(ids(&e), vec![0, 2]);
    e.trigger(HotLibEvents::PatchError);
    assert_eq!(*log.borrow(), vec!["a:PatchError", "c:PatchError"]);
}

#[test]
fn push_then_remove_restores() {
    let log = Rc::new(RefCell::new(vec![]));
    let mut e: HotLibEvent<Cb> = HotLibEvent::new();
    e.push(recorder(&log, "a"));
    let before = ids(&e);
    let id = e.push(recorder(&log, "b"));
    e.remove(id);
    assert_eq!(ids(&e), before);
}

#[test]
fn local_callback_is_released() {
    let log = Rc::new(RefCell::new(vec![]));
    let mut e: HotLibEvent<Cb> = HotLibEvent::new();
    let keep = e.local(recorder(&log, "keep"));
    let gone = HotLibEventLocal::new(&mut e, recorder(&log, "gone"));
    assert_eq!(keep.0, 0);
    assert_eq!(gone.0, 1);
    gone.release(&mut e);
    e.trigger(HotLibEvents::SourceChanged);
    assert_eq!(*log.borrow(), vec!["keep:SourceChanged"]);
}
