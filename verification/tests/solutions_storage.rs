use inklings::solutions::account::Address;
use inklings::solutions::storage1::Storage1;
use inklings::solutions::storage2::{Error, Storage2};

fn alice() -> Address {
    Address { upper: 0x0101_0101, lower: 0x0101_0101_0101_0101_0101_0101_0101_0101 }
}

fn bob() -> Address {
    Address { upper: 0x0202_0202, lower: 0x0202_0202_0202_0202_0202_0202_0202_0202 }
}

fn charlie() -> Address {
    Address { upper: 0x0303_0303, lower: 0x0303_0303_0303_0303_0303_0303_0303_0303 }
}

#[test]
fn storage1_new_works() {
    let contract = Storage1::new(alice(), String::from("NewContract"), String::from("NewDescription"));

    assert_eq!(contract.get_name(), String::from("NewContract"));
    assert_eq!(contract.get_description(), String::from("NewDescription"));

    assert_eq!(contract.get_owner(), alice());
}

#[test]
fn set_name_works() {
    let mut contract = Storage1::new(alice(), String::from("OldName"), String::from("Description"));

    assert_eq!(contract.set_name(alice(), String::from("NewName")), Ok(()));
    assert_eq!(contract.get_name(), String::from("NewName"));
    assert_eq!(contract.get_description(), String::from("Description"));
}

#[test]
fn set_name_fails_not_owner() {
    let mut contract = Storage1::new(alice(), String::from("Name"), String::from("Description"));
    assert_eq!(
        contract.set_name(bob(), String::from("NewName")),
        Err(inklings::solutions::storage1::Error::NotOwner)
    );

    // Name should be unchanged
    assert_eq!(contract.get_name(), String::from("Name"));
}

#[test]
fn set_description_works() {
    let mut contract = Storage1::new(alice(), String::from("Name"), String::from("OldDescription"));

    assert_eq!(contract.set_description(alice(), String::from("NewDescription")), Ok(()));
    assert_eq!(contract.get_description(), String::from("NewDescription"));
    assert_eq!(contract.get_name(), String::from("Name"));
}

#[test]
fn set_description_fails_not_owner() {
    let mut contract = Storage1::new(alice(), String::from("Name"), String::from("Description"));
    assert_eq!(
        contract.set_description(bob(), String::from("Other")),
        Err(inklings::solutions::storage1::Error::NotOwner)
    );
    assert_eq!(contract.get_description(), String::from("Description"));
}

#[test]
fn transfer_ownership_works() {
    let mut contract = Storage1::new(alice(), String::from("Name"), String::from("Description"));

    assert_eq!(contract.transfer_ownership(alice(), bob()), Ok(()));
    assert_eq!(contract.get_owner(), bob());

    // Now Bob is owner, Alice should not be able to change name
    assert_eq!(
        contract.set_name(alice(), String::from("NewName")),
        Err(inklings::solutions::storage1::Error::NotOwner)
    );

    // But Bob can
    assert_eq!(contract.set_name(bob(), String::from("NewName")), Ok(()));
}

#[test]
fn transfer_ownership_fails_not_owner() {
    let mut contract = Storage1::new(alice(), String::from("Name"), String::from("Description"));
    assert_eq!(
        contract.transfer_ownership(bob(), charlie()),
        Err(inklings::solutions::storage1::Error::NotOwner)
    );

    // Owner should still be Alice
    assert_eq!(contract.get_owner(), alice());
}

#[test]
fn storage2_new_works() {
    let contract = Storage2::new(alice());

    assert_eq!(contract.task_count(), 0);
    assert_eq!(contract.get_owner(), alice());
}

#[test]
fn add_task_works() {
    let mut contract = Storage2::new(alice());

    assert_eq!(contract.add_task(alice(), String::from("Learn ink!")), Ok(()));
    assert_eq!(contract.task_count(), 1);

    let task = contract.get_task(0).unwrap();
    assert_eq!(task.description, String::from("Learn ink!"));
    assert_eq!(task.completed, false);
}

#[test]
fn add_task_fails_not_owner() {
    let mut contract = Storage2::new(alice());
    assert_eq!(contract.add_task(bob(), String::from("Task")), Err(Error::NotOwner));
    assert_eq!(contract.task_count(), 0);
}

#[test]
fn complete_task_works() {
    let mut contract = Storage2::new(alice());

    contract.add_task(alice(), String::from("Task 1")).unwrap();
    assert_eq!(contract.complete_task(alice(), 0), Ok(()));

    let task = contract.get_task(0).unwrap();
    assert_eq!(task.completed, true);
    assert_eq!(task.description, String::from("Task 1"));
}

#[test]
fn complete_task_not_found() {
    let mut contract = Storage2::new(alice());

    assert_eq!(contract.complete_task(alice(), 0), Err(Error::TaskNotFound));
}

#[test]
fn complete_task_fails_not_owner() {
    let mut contract = Storage2::new(alice());
    contract.add_task(alice(), String::from("Task 1")).unwrap();
    assert_eq!(contract.complete_task(bob(), 0), Err(Error::NotOwner));
    assert_eq!(contract.complete_task(bob(), 9), Err(Error::NotOwner));
    assert_eq!(contract.get_task(0).unwrap().completed, false);
}

#[test]
fn get_all_tasks_works() {
    let mut contract = Storage2::new(alice());

    contract.add_task(alice(), String::from("Task 1")).unwrap();
    contract.add_task(alice(), String::from("Task 2")).unwrap();
    contract.add_task(alice(), String::from("Task 3")).unwrap();

    let all_tasks = contract.get_all_tasks();
    assert_eq!(all_tasks.len(), 3);
    assert_eq!(all_tasks[0].description, String::from("Task 1"));
    assert_eq!(all_tasks[1].description, String::from("Task 2"));
    assert_eq!(all_tasks[2].description, String::from("Task 3"));
}

#[test]
fn remove_last_task_works() {
    let mut contract = Storage2::new(alice());

    contract.add_task(alice(), String::from("Task 1")).unwrap();
    contract.add_task(alice(), String::from("Task 2")).unwrap();
    assert_eq!(contract.task_count(), 2);

    assert_eq!(contract.remove_last_task(alice()), Ok(()));
    assert_eq!(contract.task_count(), 1);

    let task = contract.get_task(0).unwrap();
    assert_eq!(task.description, String::from("Task 1"));
    assert!(contract.get_task(1).is_none());
}

#[test]
fn remove_last_task_empty() {
    let mut contract = Storage2::new(alice());

    assert_eq!(contract.remove_last_task(alice()), Err(Error::NoTasks));
}

#[test]
fn remove_last_task_fails_not_owner() {
    let mut contract = Storage2::new(alice());
    contract.add_task(alice(), String::from("Task 1")).unwrap();
    assert_eq!(contract.remove_last_task(bob()), Err(Error::NotOwner));
    assert_eq!(contract.task_count(), 1);
}

#[test]
fn multiple_tasks_workflow() {
    let mut contract = Storage2::new(alice());

    // Add tasks
    contract.add_task(alice(), String::from("Buy milk")).unwrap();
    contract.add_task(alice(), String::from("Write code")).unwrap();
    contract.add_task(alice(), String::from("Deploy contract")).unwrap();

    // Complete middle task
    contract.complete_task(alice(), 1).unwrap();

    // Check states
    assert_eq!(contract.get_task(0).unwrap().completed, false);
    assert_eq!(contract.get_task(1).unwrap().completed, true);
    assert_eq!(contract.get_task(2).unwrap().completed, false);

    assert_eq!(contract.task_count(), 3);
}
